//! The routing guarantees, stated and proved over the dispatcher's
//! specification: what each route replies, for every request the route
//! accepts.

use vstd::prelude::*;

use crate::handler::spec_created;
use crate::handler::spec_dispatch;
use crate::handler::spec_file_outcome;
use crate::handler::spec_not_found;
use crate::handler::spec_ok_empty;
use crate::handler::spec_segment1;
use crate::handler::spec_text_response;
use crate::handler::utf8_len;
use crate::handler::ActionSpec;
use crate::handler::HandlerError;
use crate::strutil::dec_digits;
use crate::strutil::find_idx;
use crate::strutil::lemma_find_idx;
use crate::strutil::spec_parse_usize;

verus! {

broadcast use vstd::string::group_string_axioms;

/// The first segment of a target assembled from a slash, a slash-free
/// segment, and a tail that is empty or starts with a slash, is that
/// segment.
proof fn lemma_segment_concat(seg: Seq<char>, tail: Seq<char>)
    requires
        forall|k: int| 0 <= k < seg.len() ==> seg[k] != '/',
        tail.len() == 0 || tail[0] == '/',
    ensures
        spec_segment1(seq!['/'] + seg + tail) == Some(seg),
{
    let p = seq!['/'] + seg + tail;
    assert(p[0] == '/');
    lemma_find_idx(p, '/');
    match find_idx(p, '/') {
        None => {
            assert(p[0] != '/');
        },
        Some(i) => {
            if i > 0 {
                assert(p[0] != '/');
            }
            assert(i == 0);
            let rest = p.subrange(1, p.len() as int);
            assert(rest =~= seg + tail);
            assert(forall|k: int| 0 <= k < seg.len() ==> rest[k] == seg[k]);
            lemma_find_idx(rest, '/');
            if tail.len() == 0 {
                match find_idx(rest, '/') {
                    Some(j) => {
                        assert(rest[j] != '/');
                    },
                    None => {
                        assert(rest =~= seg);
                    },
                }
            } else {
                assert(rest[seg.len() as int] == tail[0]);
                match find_idx(rest, '/') {
                    None => {
                        assert(rest[seg.len() as int] != '/');
                    },
                    Some(j) => {
                        if j < seg.len() {
                            assert(rest[j] == seg[j]);
                        } else if j > seg.len() {
                            assert(rest[seg.len() as int] != '/');
                        }
                        assert(j == seg.len());
                        assert(rest.subrange(0, j) =~= seg);
                    },
                }
            }
        },
    }
}

/// Echo: whatever the method and headers, a request whose target is
/// /echo/<s> is answered 200 with body exactly <s> and with headers
/// declaring text/plain and <s>'s UTF-8 byte length — no decoding, no
/// alteration.
pub proof fn lemma_echo_exact(
    method: Seq<char>,
    path: Seq<char>,
    hs: Map<Seq<char>, Seq<char>>,
    s: Seq<char>,
)
    requires
        path == "/echo/"@ + s,
        forall|i: int| 0 <= i < s.len() ==> s[i] != '/',
    ensures
        spec_dispatch(method, path, hs) == Ok::<ActionSpec, HandlerError>(
            ActionSpec::Reply(spec_text_response(s)),
        ),
        spec_text_response(s).body == Some(s),
        spec_text_response(s).headers == Some(
            seq!["Content-Type: text/plain"@, "Content-Length: "@ + dec_digits(utf8_len(s))],
        ),
{
    reveal_strlit("/echo/");
    reveal_strlit("echo");
    let seg = "echo"@;
    let tail = seq!['/'] + s;
    assert(path =~= seq!['/'] + seg + tail);
    lemma_segment_concat(seg, tail);
    assert(path.subrange(6, path.len() as int) =~= s);
}

/// User-Agent echo: a request for /user-agent is answered 200 with the
/// verbatim value of its User-Agent header as the body.
pub proof fn lemma_user_agent(
    method: Seq<char>,
    path: Seq<char>,
    hs: Map<Seq<char>, Seq<char>>,
    v: Seq<char>,
)
    requires
        path == "/user-agent"@,
        hs.contains_key("User-Agent"@),
        hs["User-Agent"@] == v,
    ensures
        spec_dispatch(method, path, hs) == Ok::<ActionSpec, HandlerError>(
            ActionSpec::Reply(spec_text_response(v)),
        ),
        spec_text_response(v).body == Some(v),
{
    reveal_strlit("/user-agent");
    reveal_strlit("user-agent");
    reveal_strlit("echo");
    let seg = "user-agent"@;
    assert(path =~= seq!['/'] + seg + Seq::<char>::empty());
    lemma_segment_concat(seg, Seq::empty());
}

/// Files round trip: a POST and a GET with the same target address the
/// same file name, and serving stored contents returns them unchanged —
/// a store followed by a fetch of the same name gives back exactly the
/// stored bytes.
pub proof fn lemma_files_round_trip(
    path: Seq<char>,
    hs_post: Map<Seq<char>, Seq<char>>,
    hs_get: Map<Seq<char>, Seq<char>>,
    name: Seq<char>,
    len: usize,
    b: Seq<char>,
)
    requires
        spec_dispatch("POST"@, path, hs_post) == Ok::<ActionSpec, HandlerError>(
            ActionSpec::WriteFile(name, len),
        ),
    ensures
        spec_dispatch("GET"@, path, hs_get) == Ok::<ActionSpec, HandlerError>(
            ActionSpec::ReadFile(name),
        ),
        spec_file_outcome(Some(b)).body == Some(b),
{
}

/// A failed file read is served as a bare 404: status 404 and neither
/// headers nor body.
pub proof fn lemma_missing_file()
    ensures
        spec_file_outcome(None::<Seq<char>>) == spec_not_found(),
        spec_not_found().code.spec_code() == 404,
        spec_not_found().headers == None::<Seq<Seq<char>>>,
        spec_not_found().body == None::<Seq<char>>,
{
}

/// Any target whose first segment names no route is answered with the
/// bare 404, whatever the method and headers.
pub proof fn lemma_unrecognized(
    method: Seq<char>,
    path: Seq<char>,
    hs: Map<Seq<char>, Seq<char>>,
    seg: Seq<char>,
)
    requires
        spec_segment1(path) == Some(seg),
        seg != "echo"@,
        seg != "user-agent"@,
        seg != "files"@,
        seg.len() != 0,
    ensures
        spec_dispatch(method, path, hs) == Ok::<ActionSpec, HandlerError>(
            ActionSpec::Reply(spec_not_found()),
        ),
        spec_not_found().code.spec_code() == 404,
        spec_not_found().body == None::<Seq<char>>,
{
}

/// The bare root target is answered 200 with no headers and no body.
pub proof fn lemma_root(method: Seq<char>, hs: Map<Seq<char>, Seq<char>>)
    ensures
        spec_dispatch(method, "/"@, hs) == Ok::<ActionSpec, HandlerError>(
            ActionSpec::Reply(spec_ok_empty()),
        ),
        spec_ok_empty().code.spec_code() == 200,
        spec_ok_empty().body == None::<Seq<char>>,
{
    reveal_strlit("/");
    reveal_strlit("echo");
    reveal_strlit("user-agent");
    reveal_strlit("files");
    let path = "/"@;
    assert(path =~= seq!['/'] + Seq::<char>::empty() + Seq::<char>::empty());
    lemma_segment_concat(Seq::empty(), Seq::empty());
}

/// Storing a file: a POST to /files/<name> whose Content-Length header
/// parses to n dispatches to writing an n-byte body under <name>, and
/// the acknowledgement is a bare 201.
pub proof fn lemma_post_files(
    path: Seq<char>,
    hs: Map<Seq<char>, Seq<char>>,
    name: Seq<char>,
    n: usize,
)
    requires
        path == "/files/"@ + name,
        hs.contains_key("Content-Length"@),
        spec_parse_usize(hs["Content-Length"@]) == Some(n as int),
    ensures
        spec_dispatch("POST"@, path, hs) == Ok::<ActionSpec, HandlerError>(
            ActionSpec::WriteFile(name, n),
        ),
        spec_created().code.spec_code() == 201,
        spec_created().body == None::<Seq<char>>,
{
    reveal_strlit("/files/");
    reveal_strlit("files");
    reveal_strlit("echo");
    reveal_strlit("user-agent");
    reveal_strlit("GET");
    reveal_strlit("POST");
    let seg = "files"@;
    let tail = seq!['/'] + name;
    assert(path =~= seq!['/'] + seg + tail);
    lemma_segment_concat(seg, tail);
    assert("POST"@.len() == 4 && "GET"@.len() == 3);
    assert("POST"@ != "GET"@);
    assert(path.subrange(7, path.len() as int) =~= name);
}

/// Fetching a file: a GET for /files/<name> dispatches to reading the
/// file stored under exactly <name>.
pub proof fn lemma_get_files(path: Seq<char>, hs: Map<Seq<char>, Seq<char>>, name: Seq<char>)
    requires
        path == "/files/"@ + name,
    ensures
        spec_dispatch("GET"@, path, hs) == Ok::<ActionSpec, HandlerError>(
            ActionSpec::ReadFile(name),
        ),
{
    reveal_strlit("/files/");
    reveal_strlit("files");
    reveal_strlit("echo");
    reveal_strlit("user-agent");
    reveal_strlit("GET");
    let seg = "files"@;
    let tail = seq!['/'] + name;
    assert(path =~= seq!['/'] + seg + tail);
    lemma_segment_concat(seg, tail);
    assert(path.subrange(7, path.len() as int) =~= name);
}

} // verus!
