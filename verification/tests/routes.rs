use minihttp::handler::bad_request_response;
use minihttp::handler::created_response;
use minihttp::handler::dispatch;
use minihttp::handler::file_response;
use minihttp::handler::handle_request;
use minihttp::handler::not_found_response;
use minihttp::handler::ok_empty_response;
use minihttp::handler::text_response;
use minihttp::handler::Action;
use minihttp::handler::HandlerError;
use minihttp::handler::Headers;
use minihttp::message::HTTPResponse;
use minihttp::message::HTTPStatusCode;

fn reply_of(r: Result<Action, HandlerError>) -> HTTPResponse {
    match r {
        Ok(Action::Reply(resp)) => resp,
        _ => panic!("expected a direct reply"),
    }
}

#[test]
fn echo_scenario_exact_bytes() {
    let lines = vec!["Host: x\r\n".to_string()];
    let r = handle_request("GET /echo/abc HTTP/1.1\r\n", &lines);
    let resp = reply_of(r);
    assert_eq!(
        resp.format(),
        "HTTP/1.1 200 OK\r\nContent-Type: text/plain\r\nContent-Length: 3\r\n\r\nabc"
    );
}

#[test]
fn echo_body_is_verbatim_and_length_counts_bytes() {
    let lines: Vec<String> = Vec::new();
    let resp = reply_of(handle_request("GET /echo/h%20i HTTP/1.1\r\n", &lines));
    assert_eq!(resp.body.as_deref(), Some("h%20i"));
    let resp = reply_of(handle_request("GET /echo/héllo HTTP/1.1\r\n", &lines));
    assert_eq!(resp.body.as_deref(), Some("héllo"));
    assert_eq!(
        resp.headers.as_ref().unwrap()[1],
        "Content-Length: 6"
    );
}

#[test]
fn echo_keeps_deeper_slashes() {
    let lines: Vec<String> = Vec::new();
    let resp = reply_of(handle_request("GET /echo/a/b HTTP/1.1\r\n", &lines));
    assert_eq!(resp.body.as_deref(), Some("a/b"));
}

#[test]
fn user_agent_is_echoed_verbatim() {
    let lines = vec![
        "Host: x\r\n".to_string(),
        "User-Agent:  foobar/1.0 \r\n".to_string(),
    ];
    let resp = reply_of(handle_request("GET /user-agent HTTP/1.1\r\n", &lines));
    assert_eq!(
        resp.format(),
        "HTTP/1.1 200 OK\r\nContent-Type: text/plain\r\nContent-Length: 10\r\n\r\nfoobar/1.0"
    );
}

#[test]
fn later_duplicate_headers_overwrite() {
    let lines = vec![
        "User-Agent: first\r\n".to_string(),
        "User-Agent: second\r\n".to_string(),
    ];
    let resp = reply_of(handle_request("GET /user-agent HTTP/1.1\r\n", &lines));
    assert_eq!(resp.body.as_deref(), Some("second"));
}

#[test]
fn user_agent_missing_is_an_error() {
    let lines = vec!["Host: x\r\n".to_string()];
    let r = handle_request("GET /user-agent HTTP/1.1\r\n", &lines);
    assert!(matches!(r, Err(HandlerError::MissingUserAgent)));
}

#[test]
fn files_round_trip_through_a_store() {
    // POST /files/data.txt with a five-byte body, simulating the
    // filesystem with an in-test store, then GET it back.
    let mut store: Vec<(String, String)> = Vec::new();
    let post_lines = vec!["Content-Length: 5\r\n".to_string()];
    let r = handle_request("POST /files/data.txt HTTP/1.1\r\n", &post_lines);
    match r {
        Ok(Action::WriteFile(name, len)) => {
            assert_eq!(name, "data.txt");
            assert_eq!(len, 5);
            let body = "hello";
            assert_eq!(body.len(), len);
            store.push((name, body.to_string()));
        }
        _ => panic!("expected a file write"),
    }
    assert_eq!(created_response().format(), "HTTP/1.1 201 Created\r\n\r\n");

    let get_lines: Vec<String> = Vec::new();
    let r = handle_request("GET /files/data.txt HTTP/1.1\r\n", &get_lines);
    match r {
        Ok(Action::ReadFile(name)) => {
            assert_eq!(name, "data.txt");
            let found = store.iter().find(|e| e.0 == name).map(|e| e.1.clone());
            let resp = file_response(found);
            assert_eq!(
                resp.format(),
                "HTTP/1.1 200 OK\r\nContent-Type: application/octet-stream\r\nContent-Length: 5\r\n\r\nhello"
            );
        }
        _ => panic!("expected a file read"),
    }
}

#[test]
fn missing_file_is_served_404_with_no_body() {
    let lines: Vec<String> = Vec::new();
    let r = handle_request("GET /files/no-such-file HTTP/1.1\r\n", &lines);
    match r {
        Ok(Action::ReadFile(name)) => {
            assert_eq!(name, "no-such-file");
            let resp = file_response(None);
            assert_eq!(resp.format(), "HTTP/1.1 404 Not Found\r\n\r\n");
            assert!(resp.body.is_none());
        }
        _ => panic!("expected a file read"),
    }
}

#[test]
fn files_with_other_method_is_bad_request() {
    let lines: Vec<String> = Vec::new();
    let resp = reply_of(handle_request("DELETE /files/x HTTP/1.1\r\n", &lines));
    assert_eq!(resp.format(), "HTTP/1.1 400 Bad Request\r\n\r\n");
}

#[test]
fn post_without_content_length_is_an_error() {
    let lines: Vec<String> = Vec::new();
    let r = handle_request("POST /files/x HTTP/1.1\r\n", &lines);
    assert!(matches!(r, Err(HandlerError::MissingContentLength)));
}

#[test]
fn post_with_bad_content_length_is_an_error() {
    let lines = vec!["Content-Length: abc\r\n".to_string()];
    let r = handle_request("POST /files/x HTTP/1.1\r\n", &lines);
    assert!(matches!(r, Err(HandlerError::InvalidContentLength)));
    let lines = vec!["Content-Length: 99999999999999999999999\r\n".to_string()];
    let r = handle_request("POST /files/x HTTP/1.1\r\n", &lines);
    assert!(matches!(r, Err(HandlerError::InvalidContentLength)));
}

#[test]
fn unrecognized_target_scenario() {
    let lines: Vec<String> = Vec::new();
    let resp = reply_of(handle_request("GET /nonexistent HTTP/1.1\r\n", &lines));
    assert_eq!(resp.format(), "HTTP/1.1 404 Not Found\r\n\r\n");
}

#[test]
fn root_is_200_with_empty_body() {
    let lines: Vec<String> = Vec::new();
    let resp = reply_of(handle_request("GET / HTTP/1.1\r\n", &lines));
    assert_eq!(resp.format(), "HTTP/1.1 200 OK\r\n\r\n");
    assert!(resp.body.is_none());
}

#[test]
fn short_targets_for_routed_prefixes_are_errors() {
    let lines: Vec<String> = Vec::new();
    let r = handle_request("GET /echo HTTP/1.1\r\n", &lines);
    assert!(matches!(r, Err(HandlerError::MalformedTarget)));
    let r = handle_request("GET /files HTTP/1.1\r\n", &lines);
    assert!(matches!(r, Err(HandlerError::MalformedTarget)));
}

#[test]
fn target_without_slash_is_an_error() {
    let lines: Vec<String> = Vec::new();
    let r = handle_request("GET nopath HTTP/1.1\r\n", &lines);
    assert!(matches!(r, Err(HandlerError::MalformedTarget)));
}

#[test]
fn bad_request_line_is_an_error() {
    let lines: Vec<String> = Vec::new();
    let r = handle_request("\r\n", &lines);
    assert!(matches!(r, Err(HandlerError::MalformedRequestLine)));
}

#[test]
fn header_without_colon_is_an_error() {
    let lines = vec!["junk\r\n".to_string()];
    let r = handle_request("GET / HTTP/1.1\r\n", &lines);
    assert!(matches!(r, Err(HandlerError::MalformedHeaderLine)));
}

#[test]
fn header_map_is_case_sensitive_and_overwrites() {
    let mut hs = Headers::new();
    hs.insert("Accept".to_string(), "1".to_string());
    hs.insert("accept".to_string(), "2".to_string());
    hs.insert("Accept".to_string(), "3".to_string());
    assert_eq!(hs.get("Accept").as_deref(), Some("3"));
    assert_eq!(hs.get("accept").as_deref(), Some("2"));
    assert_eq!(hs.get("ACCEPT"), None);
}

#[test]
fn dispatch_routes_by_raw_method_token() {
    let hs = Headers::new();
    // An unknown method token still echoes: only the files route reads it.
    let r = dispatch("BREW", "/echo/pot", &hs);
    let resp = reply_of(r);
    assert_eq!(resp.body.as_deref(), Some("pot"));
    let r = dispatch("BREW", "/files/pot", &hs);
    let resp = reply_of(r);
    assert_eq!(resp.code.code(), 400);
}

#[test]
fn response_builders_have_expected_status_lines() {
    assert_eq!(ok_empty_response().format(), "HTTP/1.1 200 OK\r\n\r\n");
    assert_eq!(created_response().format(), "HTTP/1.1 201 Created\r\n\r\n");
    assert_eq!(bad_request_response().format(), "HTTP/1.1 400 Bad Request\r\n\r\n");
    assert_eq!(not_found_response().format(), "HTTP/1.1 404 Not Found\r\n\r\n");
    let echo = text_response("xyz".to_string());
    assert_eq!(echo.code.code(), 200);
    assert_eq!(echo.message, "OK");
}

#[test]
fn status_codes_carry_their_numbers() {
    assert_eq!(HTTPStatusCode::OK.code(), 200);
    assert_eq!(HTTPStatusCode::Created.code(), 201);
    assert_eq!(HTTPStatusCode::BadRequest.code(), 400);
    assert_eq!(HTTPStatusCode::NotFound.code(), 404);
    assert_eq!(HTTPStatusCode::UnsupportedMediaType.code(), 415);
}

#[test]
fn format_appends_headers_then_blank_line_then_body() {
    let resp = HTTPResponse {
        code: HTTPStatusCode::OK,
        message: "OK".to_string(),
        headers: Some(vec!["A: 1".to_string(), "B: 2".to_string()]),
        body: Some("payload".to_string()),
    };
    assert_eq!(resp.format(), "HTTP/1.1 200 OK\r\nA: 1\r\nB: 2\r\n\r\npayload");
}
