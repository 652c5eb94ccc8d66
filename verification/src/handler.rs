//! The connection handler's logic: request-line and header parsing, the
//! header mapping, route dispatch, and the response builders. The caller
//! reads lines from the socket and performs the filesystem work that a
//! dispatched action asks for; everything decided here is verified.

use vstd::prelude::*;

use crate::message::HTTPResponse;
use crate::message::HTTPStatusCode;
use crate::message::RespSpec;
use crate::strutil::dec_digits;
use crate::strutil::dec_string;
use crate::strutil::find_char;
use crate::strutil::find_idx;
use crate::strutil::first_token;
use crate::strutil::lemma_find_idx;
use crate::strutil::nth_token;
use crate::strutil::parse_usize;
use crate::strutil::spec_parse_usize;
use crate::strutil::spec_trim;
use crate::strutil::str_eq;
use crate::strutil::trim;

verus! {

/// The UTF-8 byte length of a character sequence, as `str::len` reports
/// it; the Content-Length headers built here count bytes, not characters.
pub open spec fn utf8_len(s: Seq<char>) -> nat {
    vstd::utf8::encode_utf8(s).len()
}

/// How handling a request can fail. Each variant stands for a malformed
/// or incomplete input on which no response is owed and the connection
/// is simply abandoned.
#[derive(Clone, Copy, Debug, PartialEq, Eq, Structural)]
pub enum HandlerError {
    /// The request line holds fewer than two whitespace-separated tokens.
    MalformedRequestLine,
    /// A header line before the blank line holds no colon.
    MalformedHeaderLine,
    /// The request target has no slash, or is too short for its route.
    MalformedTarget,
    /// The user-agent route found no User-Agent header.
    MissingUserAgent,
    /// A file upload carried no Content-Length header.
    MissingContentLength,
    /// The Content-Length header value is not a usize numeral.
    InvalidContentLength,
}

/// The header mapping of one request: later insertions of the same name
/// overwrite earlier ones, as a view `Map` from names to values.
pub struct Headers {
    entries: Vec<(String, String)>,
}

spec fn entry_views(s: Seq<(String, String)>) -> Seq<(Seq<char>, Seq<char>)> {
    s.map_values(|p: (String, String)| (p.0@, p.1@))
}

spec fn map_of(entries: Seq<(Seq<char>, Seq<char>)>) -> Map<Seq<char>, Seq<char>>
    decreases entries.len(),
{
    if entries.len() == 0 {
        Map::empty()
    } else {
        map_of(entries.drop_last()).insert(entries.last().0, entries.last().1)
    }
}

impl View for Headers {
    type V = Map<Seq<char>, Seq<char>>;

    closed spec fn view(&self) -> Map<Seq<char>, Seq<char>> {
        map_of(entry_views(self.entries@))
    }
}

proof fn lemma_map_of_absent(s: Seq<(Seq<char>, Seq<char>)>, name: Seq<char>)
    requires
        forall|k: int| 0 <= k < s.len() ==> s[k].0 != name,
    ensures
        !map_of(s).contains_key(name),
    decreases s.len(),
{
    if s.len() > 0 {
        lemma_map_of_absent(s.drop_last(), name);
    }
}

proof fn lemma_map_of_found(s: Seq<(Seq<char>, Seq<char>)>, i: int, name: Seq<char>)
    requires
        0 <= i < s.len(),
        s[i].0 == name,
        forall|k: int| i < k < s.len() ==> s[k].0 != name,
    ensures
        map_of(s).contains_key(name),
        map_of(s)[name] == s[i].1,
    decreases s.len(),
{
    if i < s.len() - 1 {
        lemma_map_of_found(s.drop_last(), i, name);
    }
}

impl Headers {
    /// An empty header mapping.
    pub fn new() -> (r: Headers)
        ensures
            r@ == Map::<Seq<char>, Seq<char>>::empty(),
    {
        Headers { entries: Vec::new() }
    }

    /// Records a header; a later value for the same name overwrites an
    /// earlier one.
    pub fn insert(&mut self, name: String, value: String)
        ensures
            final(self)@ == old(self)@.insert(name@, value@),
    {
        let ghost n = name@;
        let ghost v = value@;
        let ghost before = entry_views(self.entries@);
        self.entries.push((name, value));
        proof {
            let after = entry_views(self.entries@);
            assert(after.drop_last() =~= before);
            assert(after.last() == (n, v));
        }
    }

    /// Looks a header up by its exact, case-sensitive name.
    pub fn get(&self, name: &str) -> (r: Option<String>)
        ensures
            match r {
                Some(v) => self@.contains_key(name@) && v@ == self@[name@],
                None => !self@.contains_key(name@),
            },
    {
        let ghost evs = entry_views(self.entries@);
        let mut i: usize = self.entries.len();
        while i > 0
            invariant
                0 <= i <= self.entries.len(),
                evs == entry_views(self.entries@),
                forall|k: int| i <= k < evs.len() ==> evs[k].0 != name@,
            decreases i,
        {
            i = i - 1;
            if str_eq(self.entries[i].0.as_str(), name) {
                proof {
                    lemma_map_of_found(evs, i as int, name@);
                }
                return Some(self.entries[i].1.clone());
            }
        }
        proof {
            lemma_map_of_absent(evs, name@);
        }
        None
    }
}

/// What parsing a request line yields: its first two tokens, the method
/// and the request target. A version token may follow; it is parsed
/// separately when wanted and never changes behavior.
pub open spec fn spec_request_line(s: Seq<char>) -> Option<(Seq<char>, Seq<char>)> {
    match (nth_token(s, 0), nth_token(s, 1)) {
        (Some(m), Some(t)) => Some((m, t)),
        _ => None,
    }
}

/// A parsed request line: the method token and the request target.
pub struct RequestLine {
    pub method: String,
    pub target: String,
}

/// Splits a request line on whitespace; fails when it holds fewer than
/// two tokens.
pub fn parse_request_line(line: &str) -> (r: Option<RequestLine>)
    ensures
        match r {
            Some(rl) => spec_request_line(line@) == Some((rl.method@, rl.target@)),
            None => spec_request_line(line@) == None::<(Seq<char>, Seq<char>)>,
        },
{
    proof {
        reveal_with_fuel(nth_token, 3);
    }
    match first_token(line) {
        None => None,
        Some((m, rest)) => match first_token(rest.as_str()) {
            None => None,
            Some((t, _)) => Some(RequestLine { method: m, target: t }),
        },
    }
}

/// What parsing one header line yields: the trimmed name before the
/// first colon and the trimmed value after it, or nothing when the line
/// holds no colon.
pub open spec fn spec_header(line: Seq<char>) -> Option<(Seq<char>, Seq<char>)> {
    match find_idx(line, ':') {
        None => None,
        Some(i) => Some(
            (spec_trim(line.subrange(0, i)), spec_trim(line.subrange(i + 1, line.len() as int))),
        ),
    }
}

/// Splits a header line at its first colon and trims both sides.
pub fn parse_header_line(line: &str) -> (r: Option<(String, String)>)
    ensures
        match r {
            Some(p) => spec_header(line@) == Some((p.0@, p.1@)),
            None => spec_header(line@) == None::<(Seq<char>, Seq<char>)>,
        },
{
    let n = line.unicode_len();
    match find_char(line, ':') {
        None => None,
        Some(i) => {
            proof {
                lemma_find_idx(line@, ':');
            }
            let name = trim(line.substring_char(0, i));
            let value = trim(line.substring_char(i + 1, n));
            Some((name, value))
        },
    }
}

/// Whether this line is the bare CRLF that ends the header section.
pub fn is_end_of_headers(line: &str) -> (r: bool)
    ensures
        r == (line@ == "\r\n"@),
{
    str_eq(line, "\r\n")
}

/// The first slash-delimited segment of the request target: what stands
/// between the first slash and the next (or the end). A target with no
/// slash at all has no segment and cannot be routed.
pub open spec fn spec_segment1(path: Seq<char>) -> Option<Seq<char>> {
    match find_idx(path, '/') {
        None => None,
        Some(i) => {
            let rest = path.subrange(i + 1, path.len() as int);
            match find_idx(rest, '/') {
                None => Some(rest),
                Some(j) => Some(rest.subrange(0, j)),
            }
        },
    }
}

/// Extracts the first slash-delimited segment of the request target.
pub fn segment1(path: &str) -> (r: Option<String>)
    ensures
        match r {
            Some(seg) => spec_segment1(path@) == Some(seg@),
            None => spec_segment1(path@) == None::<Seq<char>>,
        },
{
    let n = path.unicode_len();
    match find_char(path, '/') {
        None => None,
        Some(i) => {
            proof {
                lemma_find_idx(path@, '/');
            }
            let rest = path.substring_char(i + 1, n);
            match find_char(rest, '/') {
                None => Some(String::from_str(rest)),
                Some(j) => {
                    proof {
                        lemma_find_idx(rest@, '/');
                    }
                    Some(String::from_str(rest.substring_char(0, j)))
                },
            }
        },
    }
}

/// A 200 response carrying `content` as text/plain, with its UTF-8 byte
/// length declared.
pub open spec fn spec_text_response(content: Seq<char>) -> RespSpec {
    RespSpec {
        code: HTTPStatusCode::OK,
        message: "OK"@,
        headers: Some(
            seq![
                "Content-Type: text/plain"@,
                "Content-Length: "@ + dec_digits(utf8_len(content)),
            ],
        ),
        body: Some(content),
    }
}

/// A 200 response carrying file contents as application/octet-stream,
/// with their UTF-8 byte length declared.
pub open spec fn spec_octet_response(content: Seq<char>) -> RespSpec {
    RespSpec {
        code: HTTPStatusCode::OK,
        message: "OK"@,
        headers: Some(
            seq![
                "Content-Type: application/octet-stream"@,
                "Content-Length: "@ + dec_digits(utf8_len(content)),
            ],
        ),
        body: Some(content),
    }
}

/// A bare 200 with no headers and no body.
pub open spec fn spec_ok_empty() -> RespSpec {
    RespSpec { code: HTTPStatusCode::OK, message: "OK"@, headers: None, body: None }
}

/// A bare 201 with no headers and no body.
pub open spec fn spec_created() -> RespSpec {
    RespSpec { code: HTTPStatusCode::Created, message: "Created"@, headers: None, body: None }
}

/// A bare 400 with no headers and no body.
pub open spec fn spec_bad_request() -> RespSpec {
    RespSpec { code: HTTPStatusCode::BadRequest, message: "Bad Request"@, headers: None, body: None }
}

/// A bare 404 with no headers and no body.
pub open spec fn spec_not_found() -> RespSpec {
    RespSpec { code: HTTPStatusCode::NotFound, message: "Not Found"@, headers: None, body: None }
}

/// What serving a file read outcome yields: the contents on success, a
/// bare 404 when the read failed.
pub open spec fn spec_file_outcome(content: Option<Seq<char>>) -> RespSpec {
    match content {
        Some(c) => spec_octet_response(c),
        None => spec_not_found(),
    }
}

/// Builds the text/plain echo of `content`.
pub fn text_response(content: String) -> (r: HTTPResponse)
    ensures
        r@ == spec_text_response(content@),
{
    let ghost c = content@;
    let mut hs: Vec<String> = Vec::new();
    hs.push(String::from_str("Content-Type: text/plain"));
    let mut cl = String::from_str("Content-Length: ");
    let len_s = dec_string(content.as_str().as_bytes().len() as u64);
    cl.append(len_s.as_str());
    hs.push(cl);
    let r = HTTPResponse {
        code: HTTPStatusCode::OK,
        message: String::from_str("OK"),
        headers: Some(hs),
        body: Some(content),
    };
    proof {
        let m = r@.headers->0;
        assert(m.len() == 2);
        assert(m[0] == "Content-Type: text/plain"@);
        assert(m[1] == "Content-Length: "@ + dec_digits(utf8_len(c)));
        assert(m =~= spec_text_response(c).headers->0);
        assert(r@ =~= spec_text_response(c));
    }
    r
}

/// Builds the response for a file read: 200 with the contents, or a bare
/// 404 when no contents could be read.
pub fn file_response(content: Option<String>) -> (r: HTTPResponse)
    ensures
        match content {
            Some(c) => r@ == spec_file_outcome(Some(c@)),
            None => r@ == spec_file_outcome(None::<Seq<char>>),
        },
{
    match content {
        None => not_found_response(),
        Some(c) => {
            let ghost cv = c@;
            let mut hs: Vec<String> = Vec::new();
            hs.push(String::from_str("Content-Type: application/octet-stream"));
            let mut cl = String::from_str("Content-Length: ");
            let len_s = dec_string(c.as_str().as_bytes().len() as u64);
            cl.append(len_s.as_str());
            hs.push(cl);
            let r = HTTPResponse {
                code: HTTPStatusCode::OK,
                message: String::from_str("OK"),
                headers: Some(hs),
                body: Some(c),
            };
            proof {
                assert(r@.headers->0 =~= spec_octet_response(cv).headers->0);
                assert(r@ =~= spec_octet_response(cv));
            }
            r
        },
    }
}

/// Builds the bare 200 for the root route.
pub fn ok_empty_response() -> (r: HTTPResponse)
    ensures
        r@ == spec_ok_empty(),
{
    let r = HTTPResponse {
        code: HTTPStatusCode::OK,
        message: String::from_str("OK"),
        headers: None,
        body: None,
    };
    proof {
        assert(r@ =~= spec_ok_empty());
    }
    r
}

/// Builds the bare 201 acknowledging a stored file.
pub fn created_response() -> (r: HTTPResponse)
    ensures
        r@ == spec_created(),
{
    let r = HTTPResponse {
        code: HTTPStatusCode::Created,
        message: String::from_str("Created"),
        headers: None,
        body: None,
    };
    proof {
        assert(r@ =~= spec_created());
    }
    r
}

/// Builds the bare 400 for an unsupported method on the files route.
pub fn bad_request_response() -> (r: HTTPResponse)
    ensures
        r@ == spec_bad_request(),
{
    let r = HTTPResponse {
        code: HTTPStatusCode::BadRequest,
        message: String::from_str("Bad Request"),
        headers: None,
        body: None,
    };
    proof {
        assert(r@ =~= spec_bad_request());
    }
    r
}

/// Builds the bare 404 for an unrouted target or a missing file.
pub fn not_found_response() -> (r: HTTPResponse)
    ensures
        r@ == spec_not_found(),
{
    let r = HTTPResponse {
        code: HTTPStatusCode::NotFound,
        message: String::from_str("Not Found"),
        headers: None,
        body: None,
    };
    proof {
        assert(r@ =~= spec_not_found());
    }
    r
}

/// What the dispatcher decides: a finished response to write, a file to
/// read and serve, or a file to fill with a body of the given length and
/// acknowledge.
pub enum Action {
    Reply(HTTPResponse),
    ReadFile(String),
    WriteFile(String, usize),
}

/// The mathematical shape of an `Action`.
#[verifier::ext_equal]
pub ghost enum ActionSpec {
    Reply(RespSpec),
    ReadFile(Seq<char>),
    WriteFile(Seq<char>, usize),
}

impl View for Action {
    type V = ActionSpec;

    open spec fn view(&self) -> ActionSpec {
        match self {
            Action::Reply(r) => ActionSpec::Reply(r@),
            Action::ReadFile(n) => ActionSpec::ReadFile(n@),
            Action::WriteFile(n, l) => ActionSpec::WriteFile(n@, *l),
        }
    }
}

/// Where a request goes. Routing looks only at the first slash-delimited
/// segment of the target; the echo and files routes then take everything
/// from character offset 6 (after "/echo/") or 7 (after "/files/"), and
/// a target too short for that offset is malformed. The method decides
/// only on the files route, by its raw token: GET reads, POST writes,
/// anything else is a 400.
pub open spec fn spec_dispatch(
    method: Seq<char>,
    path: Seq<char>,
    hs: Map<Seq<char>, Seq<char>>,
) -> Result<ActionSpec, HandlerError> {
    match spec_segment1(path) {
        None => Err(HandlerError::MalformedTarget),
        Some(seg) => {
            if seg == "echo"@ {
                if path.len() < 6 {
                    Err(HandlerError::MalformedTarget)
                } else {
                    Ok(
                        ActionSpec::Reply(
                            spec_text_response(path.subrange(6, path.len() as int)),
                        ),
                    )
                }
            } else if seg == "user-agent"@ {
                if hs.contains_key("User-Agent"@) {
                    Ok(ActionSpec::Reply(spec_text_response(hs["User-Agent"@])))
                } else {
                    Err(HandlerError::MissingUserAgent)
                }
            } else if seg == "files"@ {
                if method == "GET"@ {
                    if path.len() < 7 {
                        Err(HandlerError::MalformedTarget)
                    } else {
                        Ok(ActionSpec::ReadFile(path.subrange(7, path.len() as int)))
                    }
                } else if method == "POST"@ {
                    if path.len() < 7 {
                        Err(HandlerError::MalformedTarget)
                    } else if !hs.contains_key("Content-Length"@) {
                        Err(HandlerError::MissingContentLength)
                    } else {
                        match spec_parse_usize(hs["Content-Length"@]) {
                            None => Err(HandlerError::InvalidContentLength),
                            Some(v) => Ok(
                                ActionSpec::WriteFile(
                                    path.subrange(7, path.len() as int),
                                    v as usize,
                                ),
                            ),
                        }
                    }
                } else {
                    Ok(ActionSpec::Reply(spec_bad_request()))
                }
            } else if seg.len() == 0 {
                Ok(ActionSpec::Reply(spec_ok_empty()))
            } else {
                Ok(ActionSpec::Reply(spec_not_found()))
            }
        },
    }
}

/// Routes one parsed request to its action.
pub fn dispatch(method: &str, path: &str, headers: &Headers) -> (r: Result<Action, HandlerError>)
    ensures
        match r {
            Ok(a) => spec_dispatch(method@, path@, headers@) == Ok::<ActionSpec, HandlerError>(a@),
            Err(e) => spec_dispatch(method@, path@, headers@) == Err::<ActionSpec, HandlerError>(e),
        },
{
    let seg_opt = segment1(path);
    match seg_opt {
        None => Err(HandlerError::MalformedTarget),
        Some(seg) => {
            if str_eq(seg.as_str(), "echo") {
                let n = path.unicode_len();
                if n < 6 {
                    Err(HandlerError::MalformedTarget)
                } else {
                    let content = String::from_str(path.substring_char(6, n));
                    Ok(Action::Reply(text_response(content)))
                }
            } else if str_eq(seg.as_str(), "user-agent") {
                match headers.get("User-Agent") {
                    Some(v) => Ok(Action::Reply(text_response(v))),
                    None => Err(HandlerError::MissingUserAgent),
                }
            } else if str_eq(seg.as_str(), "files") {
                let n = path.unicode_len();
                if str_eq(method, "GET") {
                    if n < 7 {
                        Err(HandlerError::MalformedTarget)
                    } else {
                        Ok(Action::ReadFile(String::from_str(path.substring_char(7, n))))
                    }
                } else if str_eq(method, "POST") {
                    if n < 7 {
                        Err(HandlerError::MalformedTarget)
                    } else {
                        match headers.get("Content-Length") {
                            None => Err(HandlerError::MissingContentLength),
                            Some(v) => match parse_usize(v.as_str()) {
                                None => Err(HandlerError::InvalidContentLength),
                                Some(len) => Ok(
                                    Action::WriteFile(
                                        String::from_str(path.substring_char(7, n)),
                                        len,
                                    ),
                                ),
                            },
                        }
                    }
                } else {
                    Ok(Action::Reply(bad_request_response()))
                }
            } else if seg.as_str().unicode_len() == 0 {
                Ok(Action::Reply(ok_empty_response()))
            } else {
                Ok(Action::Reply(not_found_response()))
            }
        },
    }
}

/// What folding the header lines into a mapping yields: `None` when some
/// line holds no colon, else the mapping with later duplicates
/// overwriting earlier ones.
pub open spec fn spec_collect_headers(lines: Seq<Seq<char>>) -> Option<
    Map<Seq<char>, Seq<char>>,
>
    decreases lines.len(),
{
    if lines.len() == 0 {
        Some(Map::empty())
    } else {
        match spec_collect_headers(lines.drop_last()) {
            None => None,
            Some(m) => match spec_header(lines.last()) {
                None => None,
                Some(p) => Some(m.insert(p.0, p.1)),
            },
        }
    }
}

proof fn lemma_collect_headers_none(lines: Seq<Seq<char>>, i: int)
    requires
        0 <= i < lines.len(),
        spec_header(lines[i]) == None::<(Seq<char>, Seq<char>)>,
    ensures
        spec_collect_headers(lines) == None::<Map<Seq<char>, Seq<char>>>,
    decreases lines.len(),
{
    if i < lines.len() - 1 {
        lemma_collect_headers_none(lines.drop_last(), i);
    }
}

/// What handling one request yields, from its request line and the
/// header lines that preceded the blank line: parse the line, fold the
/// headers, dispatch.
pub open spec fn spec_handle(line: Seq<char>, headers: Seq<Seq<char>>) -> Result<
    ActionSpec,
    HandlerError,
> {
    match spec_request_line(line) {
        None => Err(HandlerError::MalformedRequestLine),
        Some(mt) => match spec_collect_headers(headers) {
            None => Err(HandlerError::MalformedHeaderLine),
            Some(hm) => spec_dispatch(mt.0, mt.1, hm),
        },
    }
}

/// Drives one request/response exchange as far as it can be decided
/// without touching the filesystem: parses the request line and the
/// header lines, then routes. The caller performs the returned action.
pub fn handle_request(request_line: &str, header_lines: &Vec<String>) -> (r: Result<
    Action,
    HandlerError,
>)
    ensures
        match r {
            Ok(a) => spec_handle(request_line@, header_lines.deep_view()) == Ok::<
                ActionSpec,
                HandlerError,
            >(a@),
            Err(e) => spec_handle(request_line@, header_lines.deep_view()) == Err::<
                ActionSpec,
                HandlerError,
            >(e),
        },
{
    let rl = match parse_request_line(request_line) {
        None => {
            return Err(HandlerError::MalformedRequestLine);
        },
        Some(rl) => rl,
    };
    let ghost lv = header_lines.deep_view();
    let mut hs = Headers::new();
    let mut i: usize = 0;
    while i < header_lines.len()
        invariant
            0 <= i <= header_lines.len(),
            lv == header_lines.deep_view(),
            lv.len() == header_lines.len(),
            spec_request_line(request_line@) == Some((rl.method@, rl.target@)),
            spec_collect_headers(lv.take(i as int)) == Some(hs@),
        decreases header_lines.len() - i,
    {
        proof {
            assert(lv[i as int] == header_lines[i as int]@);
        }
        match parse_header_line(header_lines[i].as_str()) {
            None => {
                proof {
                    lemma_collect_headers_none(lv, i as int);
                }
                return Err(HandlerError::MalformedHeaderLine);
            },
            Some((name, value)) => {
                let ghost nm = name@;
                let ghost vl = value@;
                hs.insert(name, value);
                proof {
                    let t = lv.take(i + 1);
                    assert(t.drop_last() =~= lv.take(i as int));
                    assert(t.last() == lv[i as int]);
                }
            },
        }
        i = i + 1;
    }
    proof {
        assert(lv.take(header_lines.len() as int) =~= lv);
    }
    dispatch(rl.method.as_str(), rl.target.as_str(), &hs)
}

/// Joins the configured directory and a file name with one slash, as the
/// files route addresses its files.
pub fn file_path(directory: &str, name: &str) -> (r: String)
    ensures
        r@ == directory@ + "/"@ + name@,
{
    let mut s = String::from_str(directory);
    s.append("/");
    s.append(name);
    s
}

} // verus!
