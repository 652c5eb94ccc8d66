use minihttp::handler::is_end_of_headers;
use minihttp::handler::parse_header_line;
use minihttp::handler::parse_request_line;
use minihttp::handler::segment1;
use minihttp::handler::file_path;
use minihttp::message::HTTPMethod;
use minihttp::message::HTTPVersion;
use minihttp::strutil::dec_string;
use minihttp::strutil::parse_usize;
use minihttp::strutil::str_eq;
use minihttp::strutil::trim;

#[test]
fn request_line_splits_on_whitespace() {
    let rl = parse_request_line("GET /echo/abc HTTP/1.1\r\n").unwrap();
    assert_eq!(rl.method, "GET");
    assert_eq!(rl.target, "/echo/abc");
}

#[test]
fn request_line_tolerates_extra_whitespace() {
    let rl = parse_request_line("  POST \t /files/x   HTTP/1.0  \r\n").unwrap();
    assert_eq!(rl.method, "POST");
    assert_eq!(rl.target, "/files/x");
}

#[test]
fn request_line_needs_two_tokens() {
    assert!(parse_request_line("\r\n").is_none());
    assert!(parse_request_line("GET\r\n").is_none());
    assert!(parse_request_line("   ").is_none());
}

#[test]
fn header_line_splits_at_first_colon_and_trims() {
    let (name, value) = parse_header_line("Host:  example.test  \r\n").unwrap();
    assert_eq!(name, "Host");
    assert_eq!(value, "example.test");
    let (name, value) = parse_header_line("A:B:C\r\n").unwrap();
    assert_eq!(name, "A");
    assert_eq!(value, "B:C");
}

#[test]
fn header_line_without_colon_is_rejected() {
    assert!(parse_header_line("no colon here\r\n").is_none());
    assert!(parse_header_line("").is_none());
}

#[test]
fn end_of_headers_is_exactly_crlf() {
    assert!(is_end_of_headers("\r\n"));
    assert!(!is_end_of_headers(""));
    assert!(!is_end_of_headers("\n"));
    assert!(!is_end_of_headers("Host: x\r\n"));
}

#[test]
fn first_segment_of_target() {
    assert_eq!(segment1("/echo/abc").unwrap(), "echo");
    assert_eq!(segment1("/files/a/b").unwrap(), "files");
    assert_eq!(segment1("/").unwrap(), "");
    assert_eq!(segment1("x/echo/q").unwrap(), "echo");
    assert!(segment1("abc").is_none());
    assert!(segment1("").is_none());
}

#[test]
fn method_tokens_parse_case_sensitively() {
    assert_eq!(HTTPMethod::from_str("GET"), Ok(HTTPMethod::GET));
    assert_eq!(HTTPMethod::from_str("POST"), Ok(HTTPMethod::POST));
    assert_eq!(HTTPMethod::from_str("PUT"), Ok(HTTPMethod::PUT));
    assert_eq!(HTTPMethod::from_str("DELETE"), Ok(HTTPMethod::DELETE));
    assert_eq!(HTTPMethod::from_str("HEAD"), Ok(HTTPMethod::HEAD));
    assert_eq!(HTTPMethod::from_str("PATCH"), Ok(HTTPMethod::PATCH));
    assert_eq!(HTTPMethod::from_str("get"), Err(()));
    assert_eq!(HTTPMethod::from_str(""), Err(()));
}

#[test]
fn version_tokens_parse_exactly() {
    assert_eq!(HTTPVersion::from_str("HTTP/1.0"), Ok(HTTPVersion::V1_0));
    assert_eq!(HTTPVersion::from_str("HTTP/1.1"), Ok(HTTPVersion::V1_1));
    assert_eq!(HTTPVersion::from_str("HTTP/2.0"), Ok(HTTPVersion::V2_0));
    assert_eq!(HTTPVersion::from_str("HTTP/1.2"), Err(()));
    assert_eq!(HTTPVersion::from_str("http/1.1"), Err(()));
}

#[test]
fn decimal_rendering() {
    assert_eq!(dec_string(0), "0");
    assert_eq!(dec_string(7), "7");
    assert_eq!(dec_string(42), "42");
    assert_eq!(dec_string(200), "200");
    assert_eq!(dec_string(65535), "65535");
    assert_eq!(dec_string(u64::MAX), "18446744073709551615");
}

#[test]
fn usize_numerals_parse_like_rust() {
    assert_eq!(parse_usize("0"), Some(0));
    assert_eq!(parse_usize("5"), Some(5));
    assert_eq!(parse_usize("+7"), Some(7));
    assert_eq!(parse_usize("007"), Some(7));
    assert_eq!(parse_usize("18446744073709551615"), Some(usize::MAX));
    assert_eq!(parse_usize("18446744073709551616"), None);
    assert_eq!(parse_usize("999999999999999999999999999999"), None);
    assert_eq!(parse_usize(""), None);
    assert_eq!(parse_usize("+"), None);
    assert_eq!(parse_usize("abc"), None);
    assert_eq!(parse_usize("12a"), None);
    assert_eq!(parse_usize("-5"), None);
    assert_eq!(parse_usize(" 5"), None);
}

#[test]
fn trimming_strips_ascii_whitespace() {
    assert_eq!(trim("  abc \r\n"), "abc");
    assert_eq!(trim("abc"), "abc");
    assert_eq!(trim(" \t \r\n"), "");
    assert_eq!(trim("a b"), "a b");
}

#[test]
fn string_equality_is_by_characters() {
    assert!(str_eq("abc", "abc"));
    assert!(!str_eq("abc", "abd"));
    assert!(!str_eq("abc", "ab"));
    assert!(str_eq("", ""));
}

#[test]
fn file_paths_join_with_one_slash() {
    assert_eq!(file_path("/tmp/data", "notes.txt"), "/tmp/data/notes.txt");
    assert_eq!(file_path("", ""), "/");
}
