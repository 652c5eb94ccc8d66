//! The HTTP message model: status codes, method and version tokens, and
//! the response value with its wire serialization.

use vstd::prelude::*;

use crate::strutil::dec_digits;
use crate::strutil::dec_string;
use crate::strutil::str_eq;

verus! {

/// The status codes the model knows. Only `OK`, `Created`, `BadRequest`
/// and `NotFound` are ever produced by the dispatcher; the rest are kept
/// for forward compatibility.
#[derive(Clone, Copy, Debug, PartialEq, Eq, Structural)]
pub enum HTTPStatusCode {
    OK,
    Created,
    Accepted,
    NoContent,
    MovedPermanently,
    Found,
    NotModified,
    BadRequest,
    Unauthorized,
    Forbidden,
    NotFound,
    MethodNotAllowed,
    RequestTimeout,
    Conflict,
    Gone,
    PreconditionFailed,
    PayloadTooLarge,
    URITooLong,
    UnsupportedMediaType,
}

impl HTTPStatusCode {
    /// The numeric value of the status code.
    pub open spec fn spec_code(self) -> u16 {
        match self {
            HTTPStatusCode::OK => 200,
            HTTPStatusCode::Created => 201,
            HTTPStatusCode::Accepted => 202,
            HTTPStatusCode::NoContent => 204,
            HTTPStatusCode::MovedPermanently => 301,
            HTTPStatusCode::Found => 302,
            HTTPStatusCode::NotModified => 304,
            HTTPStatusCode::BadRequest => 400,
            HTTPStatusCode::Unauthorized => 401,
            HTTPStatusCode::Forbidden => 403,
            HTTPStatusCode::NotFound => 404,
            HTTPStatusCode::MethodNotAllowed => 405,
            HTTPStatusCode::RequestTimeout => 408,
            HTTPStatusCode::Conflict => 409,
            HTTPStatusCode::Gone => 410,
            HTTPStatusCode::PreconditionFailed => 412,
            HTTPStatusCode::PayloadTooLarge => 413,
            HTTPStatusCode::URITooLong => 414,
            HTTPStatusCode::UnsupportedMediaType => 415,
        }
    }

    /// The numeric value of the status code.
    pub fn code(&self) -> (c: u16)
        ensures
            c == self.spec_code(),
    {
        match self {
            HTTPStatusCode::OK => 200,
            HTTPStatusCode::Created => 201,
            HTTPStatusCode::Accepted => 202,
            HTTPStatusCode::NoContent => 204,
            HTTPStatusCode::MovedPermanently => 301,
            HTTPStatusCode::Found => 302,
            HTTPStatusCode::NotModified => 304,
            HTTPStatusCode::BadRequest => 400,
            HTTPStatusCode::Unauthorized => 401,
            HTTPStatusCode::Forbidden => 403,
            HTTPStatusCode::NotFound => 404,
            HTTPStatusCode::MethodNotAllowed => 405,
            HTTPStatusCode::RequestTimeout => 408,
            HTTPStatusCode::Conflict => 409,
            HTTPStatusCode::Gone => 410,
            HTTPStatusCode::PreconditionFailed => 412,
            HTTPStatusCode::PayloadTooLarge => 413,
            HTTPStatusCode::URITooLong => 414,
            HTTPStatusCode::UnsupportedMediaType => 415,
        }
    }
}

/// The protocol versions the model recognizes in a request line.
#[derive(Clone, Copy, Debug, PartialEq, Eq, Structural)]
pub enum HTTPVersion {
    V1_0,
    V1_1,
    V2_0,
}

/// What parsing a version token yields.
pub open spec fn spec_version_of(s: Seq<char>) -> Result<HTTPVersion, ()> {
    if s == "HTTP/1.0"@ {
        Ok(HTTPVersion::V1_0)
    } else if s == "HTTP/1.1"@ {
        Ok(HTTPVersion::V1_1)
    } else if s == "HTTP/2.0"@ {
        Ok(HTTPVersion::V2_0)
    } else {
        Err(())
    }
}

impl HTTPVersion {
    /// Parses a version token by exact, case-sensitive match.
    pub fn from_str(input: &str) -> (r: Result<HTTPVersion, ()>)
        ensures
            r == spec_version_of(input@),
    {
        if str_eq(input, "HTTP/1.0") {
            Ok(HTTPVersion::V1_0)
        } else if str_eq(input, "HTTP/1.1") {
            Ok(HTTPVersion::V1_1)
        } else if str_eq(input, "HTTP/2.0") {
            Ok(HTTPVersion::V2_0)
        } else {
            Err(())
        }
    }
}

/// The request methods the model recognizes.
#[derive(Clone, Copy, Debug, PartialEq, Eq, Structural)]
pub enum HTTPMethod {
    GET,
    POST,
    PUT,
    DELETE,
    HEAD,
    PATCH,
}

/// What parsing a method token yields.
pub open spec fn spec_method_of(s: Seq<char>) -> Result<HTTPMethod, ()> {
    if s == "GET"@ {
        Ok(HTTPMethod::GET)
    } else if s == "POST"@ {
        Ok(HTTPMethod::POST)
    } else if s == "PUT"@ {
        Ok(HTTPMethod::PUT)
    } else if s == "DELETE"@ {
        Ok(HTTPMethod::DELETE)
    } else if s == "HEAD"@ {
        Ok(HTTPMethod::HEAD)
    } else if s == "PATCH"@ {
        Ok(HTTPMethod::PATCH)
    } else {
        Err(())
    }
}

impl HTTPMethod {
    /// Parses a method token by exact, case-sensitive match.
    pub fn from_str(input: &str) -> (r: Result<HTTPMethod, ()>)
        ensures
            r == spec_method_of(input@),
    {
        if str_eq(input, "GET") {
            Ok(HTTPMethod::GET)
        } else if str_eq(input, "POST") {
            Ok(HTTPMethod::POST)
        } else if str_eq(input, "PUT") {
            Ok(HTTPMethod::PUT)
        } else if str_eq(input, "DELETE") {
            Ok(HTTPMethod::DELETE)
        } else if str_eq(input, "HEAD") {
            Ok(HTTPMethod::HEAD)
        } else if str_eq(input, "PATCH") {
            Ok(HTTPMethod::PATCH)
        } else {
            Err(())
        }
    }
}

/// The mathematical shape of a response: what `HTTPResponse` means.
#[verifier::ext_equal]
pub ghost struct RespSpec {
    pub code: HTTPStatusCode,
    pub message: Seq<char>,
    pub headers: Option<Seq<Seq<char>>>,
    pub body: Option<Seq<char>>,
}

/// A response to be serialized: a status code, its reason phrase, an
/// optional list of already-formatted header lines (each "Name: value",
/// no trailing CRLF), and an optional body.
pub struct HTTPResponse {
    pub code: HTTPStatusCode,
    pub message: String,
    pub headers: Option<Vec<String>>,
    pub body: Option<String>,
}

impl View for HTTPResponse {
    type V = RespSpec;

    open spec fn view(&self) -> RespSpec {
        RespSpec {
            code: self.code,
            message: self.message@,
            headers: match self.headers {
                Some(hs) => Some(hs@.map_values(|h: String| h@)),
                None => None,
            },
            body: match self.body {
                Some(b) => Some(b@),
                None => None,
            },
        }
    }
}

/// The header lines each followed by CRLF, concatenated.
pub open spec fn header_block(hs: Seq<Seq<char>>) -> Seq<char>
    decreases hs.len(),
{
    if hs.len() == 0 {
        Seq::empty()
    } else {
        header_block(hs.drop_last()) + hs.last() + "\r\n"@
    }
}

/// The wire form of a response: the status line, the header block, a
/// blank line, then the body (empty when absent). The status line always
/// claims HTTP/1.1, whatever the request said.
pub open spec fn spec_format(r: RespSpec) -> Seq<char> {
    "HTTP/1.1 "@ + dec_digits(r.code.spec_code() as nat) + " "@ + r.message + "\r\n"@
        + header_block(
        match r.headers {
            Some(hs) => hs,
            None => Seq::empty(),
        },
    ) + "\r\n"@ + match r.body {
        Some(b) => b,
        None => Seq::empty(),
    }
}

impl HTTPResponse {
    /// Serializes the response to its wire form.
    pub fn format(&self) -> (r: String)
        ensures
            r@ == spec_format(self@),
    {
        let mut out = String::new();
        out.append("HTTP/1.1 ");
        let code_s = dec_string(self.code.code() as u64);
        out.append(code_s.as_str());
        out.append(" ");
        out.append(self.message.as_str());
        out.append("\r\n");
        let ghost head = "HTTP/1.1 "@ + dec_digits(self@.code.spec_code() as nat) + " "@
            + self.message@ + "\r\n"@;
        proof {
            assert(out@ =~= head);
        }
        if let Some(hs) = &self.headers {
            let ghost hview = hs@.map_values(|h: String| h@);
            let mut i: usize = 0;
            while i < hs.len()
                invariant
                    0 <= i <= hs.len(),
                    hview == hs@.map_values(|h: String| h@),
                    out@ == head + header_block(hview.take(i as int)),
                decreases hs.len() - i,
            {
                out.append(hs[i].as_str());
                out.append("\r\n");
                proof {
                    let t = hview.take(i + 1);
                    assert(t.drop_last() =~= hview.take(i as int));
                    assert(t.last() == hview[i as int]);
                    assert(out@ =~= head + header_block(hview.take(i + 1)));
                }
                i = i + 1;
            }
            proof {
                assert(hview.take(hs.len() as int) =~= hview);
            }
        }
        out.append("\r\n");
        if let Some(b) = &self.body {
            out.append(b.as_str());
        }
        proof {
            assert(out@ =~= spec_format(self@));
        }
        out
    }
}

} // verus!
