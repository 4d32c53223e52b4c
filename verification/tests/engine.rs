use std::io::Read;

use minihttp::bytes_util::split_on_exec;
use minihttp::request::{parse_request_header, RequestMethod};
use minihttp::response::generate_response;
use minihttp::router::{file_read_response, file_write_response, plan_request, Action};

fn respond_bytes(action: Action) -> Vec<u8> {
    match action {
        Action::Respond(bytes) => bytes,
        other => panic!("expected a finished response, got {:?}", other),
    }
}

/// The offset just past the blank line that ends the header block.
fn body_start(resp: &[u8]) -> usize {
    resp.windows(4)
        .position(|w| w == b"\r\n\r\n")
        .map(|i| i + 4)
        .expect("response has no blank line")
}

fn head_of(resp: &[u8]) -> String {
    String::from_utf8(resp[..body_start(resp)].to_vec()).unwrap()
}

/// The payload between the blank line and the trailing CRLF.
fn payload_of(resp: &[u8]) -> Vec<u8> {
    let start = body_start(resp);
    assert_eq!(&resp[resp.len() - 2..], b"\r\n");
    resp[start..resp.len() - 2].to_vec()
}

#[test]
fn echo_concrete_scenario() {
    let input = b"GET /echo/hello HTTP/1.1\r\nHost: x\r\n\r\n".to_vec();
    let resp = respond_bytes(plan_request(&input));
    assert_eq!(
        resp,
        b"HTTP/1.1 200 OK\r\nContent-Type: text/plain\r\nContent-Length: 5\r\n\r\nhello\r\n"
            .to_vec()
    );
}

#[test]
fn nonexistent_path_is_404() {
    let input = b"GET /nonexistent HTTP/1.1\r\n\r\n".to_vec();
    let resp = respond_bytes(plan_request(&input));
    assert_eq!(resp, b"HTTP/1.1 404 Not Found\r\n\r\n".to_vec());
}

#[test]
fn root_is_bare_200() {
    let input = b"GET / HTTP/1.1\r\nHost: a\r\n\r\n".to_vec();
    let resp = respond_bytes(plan_request(&input));
    assert_eq!(resp, b"HTTP/1.1 200 OK\r\n\r\n".to_vec());
}

#[test]
fn echo_for_all_paths() {
    for p in ["", "a", "abc", "exactly-twelve", "with space"] {
        let input = format!("GET /echo/{} HTTP/1.1\r\nHost: x\r\n\r\n", p).into_bytes();
        let resp = respond_bytes(plan_request(&input));
        let head = head_of(&resp);
        // a path token ends at the first space, so only the part before it echoes
        let expected: &str = p.split(' ').next().unwrap();
        assert!(head.starts_with("HTTP/1.1 200 OK\r\n"));
        assert!(head.contains("Content-Type: text/plain\r\n"));
        assert!(head.contains(&format!("Content-Length: {}\r\n", expected.len())));
        assert!(!head.contains("Content-Encoding"));
        assert_eq!(payload_of(&resp), expected.as_bytes().to_vec());
    }
}

#[test]
fn user_agent_is_reflected() {
    let input = b"GET /user-agent HTTP/1.1\r\nUser-Agent: curl/8.1\r\n\r\n".to_vec();
    let resp = respond_bytes(plan_request(&input));
    assert_eq!(
        resp,
        b"HTTP/1.1 200 OK\r\nContent-Type: text/plain\r\nContent-Length: 8\r\n\r\ncurl/8.1\r\n"
            .to_vec()
    );
}

#[test]
fn files_post_then_get_round_trip() {
    let post = b"POST /files/hello HTTP/1.1\r\nHost: x\r\n\r\nstored bytes".to_vec();
    let (name, contents) = match plan_request(&post) {
        Action::WriteFile { name, contents } => (name, contents),
        other => panic!("expected a file write, got {:?}", other),
    };
    assert_eq!(name, b"hello".to_vec());
    assert_eq!(contents, b"stored bytes".to_vec());
    assert_eq!(file_write_response(true), b"HTTP/1.1 201 Created\r\n\r\n".to_vec());

    let get = b"GET /files/hello HTTP/1.1\r\nHost: x\r\n\r\n".to_vec();
    let (read_name, enc) = match plan_request(&get) {
        Action::ReadFile { name, accept_encoding } => (name, accept_encoding),
        other => panic!("expected a file read, got {:?}", other),
    };
    assert_eq!(read_name, b"hello".to_vec());
    let resp = file_read_response(Some(contents), &enc);
    let head = head_of(&resp);
    assert!(head.starts_with("HTTP/1.1 200 OK\r\n"));
    assert!(head.contains("Content-Type: application/octet-stream\r\n"));
    assert!(head.contains("Content-Length: 12\r\n"));
    assert_eq!(payload_of(&resp), b"stored bytes".to_vec());
}

#[test]
fn file_read_failure_is_404() {
    assert_eq!(
        file_read_response(None, &b"gzip".to_vec()),
        b"HTTP/1.1 404 Not Found\r\n\r\n".to_vec()
    );
}

#[test]
fn file_write_failure_is_404() {
    assert_eq!(file_write_response(false), b"HTTP/1.1 404 Not Found\r\n\r\n".to_vec());
}

#[test]
fn gzip_negotiated_and_round_trips() {
    let input =
        b"GET /echo/compress-me HTTP/1.1\r\nHost: x\r\nAccept-Encoding: gzip\r\n\r\n".to_vec();
    let resp = respond_bytes(plan_request(&input));
    let head = head_of(&resp);
    assert!(head.contains("Content-Encoding: gzip\r\n"));
    let payload = payload_of(&resp);
    assert!(head.contains(&format!("Content-Length: {}\r\n", payload.len())));
    let mut decoder = flate2::read::GzDecoder::new(&payload[..]);
    let mut plain = Vec::new();
    decoder.read_to_end(&mut plain).unwrap();
    assert_eq!(plain, b"compress-me".to_vec());
}

#[test]
fn deflate_negotiated_and_round_trips() {
    let input =
        b"GET /echo/compress-me HTTP/1.1\r\nHost: x\r\nAccept-Encoding: deflate\r\n\r\n".to_vec();
    let resp = respond_bytes(plan_request(&input));
    let head = head_of(&resp);
    assert!(head.contains("Content-Encoding: deflate\r\n"));
    let payload = payload_of(&resp);
    assert!(head.contains(&format!("Content-Length: {}\r\n", payload.len())));
    let mut decoder = flate2::read::DeflateDecoder::new(&payload[..]);
    let mut plain = Vec::new();
    decoder.read_to_end(&mut plain).unwrap();
    assert_eq!(plain, b"compress-me".to_vec());
}

#[test]
fn unsupported_encoding_passes_body_through() {
    let input = b"GET /echo/plain HTTP/1.1\r\nHost: x\r\nAccept-Encoding: br\r\n\r\n".to_vec();
    let resp = respond_bytes(plan_request(&input));
    assert_eq!(
        resp,
        b"HTTP/1.1 200 OK\r\nContent-Type: text/plain\r\nContent-Length: 5\r\n\r\nplain\r\n"
            .to_vec()
    );
}

#[test]
fn last_supported_encoding_token_wins() {
    let lines = split_on_exec(
        b"GET /echo/x HTTP/1.1\r\nAccept-Encoding: gzip, deflate\r\n\r\n",
        b"\r\n",
    );
    let header = parse_request_header(&lines).unwrap();
    assert_eq!(header.accept_encoding, b"deflate".to_vec());
}

#[test]
fn encoding_tokens_match_literally() {
    // "gzip;q=1" is not the literal token "gzip", so nothing is negotiated
    let lines = split_on_exec(
        b"GET /echo/x HTTP/1.1\r\nAccept-Encoding: gzip;q=1, br\r\n\r\n",
        b"\r\n",
    );
    let header = parse_request_header(&lines).unwrap();
    assert_eq!(header.accept_encoding, b"".to_vec());
}

#[test]
fn recognized_headers_populate_fields() {
    let lines = split_on_exec(
        b"GET /user-agent HTTP/1.1\r\nHost: localhost:4221\r\nUser-Agent: ua/1\r\nAccept: */*\r\n\r\n",
        b"\r\n",
    );
    let header = parse_request_header(&lines).unwrap();
    assert!(matches!(header.method, RequestMethod::GET));
    assert_eq!(header.path, b"/user-agent".to_vec());
    assert_eq!(header.host, b"localhost:4221".to_vec());
    assert_eq!(header.user_agent, b"ua/1".to_vec());
    assert_eq!(header.accept, b"*/*".to_vec());
    assert_eq!(header.accept_encoding, b"".to_vec());
}

#[test]
fn request_line_without_two_tokens_is_400() {
    let input = b"garbage\r\nHost: x\r\n\r\n".to_vec();
    let resp = respond_bytes(plan_request(&input));
    assert_eq!(resp, b"HTTP/1.1 400 Bad Request\r\n\r\n".to_vec());
    let lines = split_on_exec(b"garbage\r\nHost: x\r\n\r\n", b"\r\n");
    assert!(parse_request_header(&lines).is_none());
}

#[test]
fn unknown_method_is_400() {
    let input = b"PUT /files/x HTTP/1.1\r\nHost: x\r\n\r\n".to_vec();
    let resp = respond_bytes(plan_request(&input));
    assert_eq!(resp, b"HTTP/1.1 400 Bad Request\r\n\r\n".to_vec());
}

#[test]
fn headers_end_at_blank_line() {
    let lines = split_on_exec(b"GET / HTTP/1.1\r\n\r\nHost: x\r\nUser-Agent: ua", b"\r\n");
    let header = parse_request_header(&lines).unwrap();
    // the blank separator ends the header block: body lines are not headers
    assert_eq!(header.host, b"".to_vec());
    assert_eq!(header.user_agent, b"".to_vec());
    assert_eq!(header.path, b"/".to_vec());
}

#[test]
fn body_lines_are_not_reparsed_as_request() {
    // a stored body shaped like a request line must not re-route the request
    let post = b"POST /files/note HTTP/1.1\r\nHost: x\r\n\r\nGET /other HTTP/1.1".to_vec();
    match plan_request(&post) {
        Action::WriteFile { name, contents } => {
            assert_eq!(name, b"note".to_vec());
            assert_eq!(contents, b"GET /other HTTP/1.1".to_vec());
        }
        other => panic!("expected a file write, got {:?}", other),
    }
}

#[test]
fn unrecognized_header_stops_the_scan() {
    let lines = split_on_exec(
        b"GET / HTTP/1.1\r\nX-Custom: 1\r\nUser-Agent: ua/1\r\n\r\n",
        b"\r\n",
    );
    let header = parse_request_header(&lines).unwrap();
    // the scan stopped at X-Custom, so the later User-Agent line is unread
    assert_eq!(header.user_agent, b"".to_vec());
    assert_eq!(header.path, b"/".to_vec());
}

#[test]
fn post_outside_files_sends_nothing() {
    let input = b"POST / HTTP/1.1\r\nHost: x\r\n\r\nbody".to_vec();
    assert!(matches!(plan_request(&input), Action::NoResponse));
}

#[test]
fn generate_response_without_encoding_is_exact() {
    let resp = generate_response(
        &b"twelve bytes".to_vec(),
        &b"application/octet-stream".to_vec(),
        &Vec::new(),
    );
    assert_eq!(
        resp,
        b"HTTP/1.1 200 OK\r\nContent-Type: application/octet-stream\r\nContent-Length: 12\r\n\r\ntwelve bytes\r\n"
            .to_vec()
    );
}
