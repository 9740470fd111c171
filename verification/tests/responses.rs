use libvmod_lambda::http_response::{
    parse_json_response, parse_raw_http_response, LambdaHttpResponse, ResponseError,
};
use libvmod_lambda::string_map::StringMap;

fn raw(payload: &[u8]) -> (u16, StringMap, Vec<u8>) {
    match parse_raw_http_response(payload) {
        Ok(parts) => parts,
        Err(error) => panic!("{}", error.message()),
    }
}

fn raw_error(payload: &[u8]) -> String {
    match parse_raw_http_response(payload) {
        Ok((status, _, _)) => panic!("parsed with status {status}"),
        Err(error) => error.message(),
    }
}

#[test]
fn a_raw_response_is_taken_apart() {
    let payload = b"HTTP/1.1 200 OK\r\nContent-Type: application/json\r\nContent-Length: 27\r\n\r\n{\"message\":\"Hello, world!\"}";
    let (status, headers, body) = raw(payload);
    assert_eq!(status, 200);
    assert_eq!(headers.len(), 2);
    assert_eq!(headers.get("content-type"), Some("application/json"));
    assert_eq!(headers.get("content-length"), Some("27"));
    assert_eq!(headers.get("Content-Length"), None);
    assert_eq!(body, b"{\"message\":\"Hello, world!\"}");
}

#[test]
fn a_body_may_be_empty_or_hold_line_endings() {
    assert_eq!(raw(b"HTTP/1.1 204 No Content\r\n\r\n").2, b"");
    assert_eq!(raw(b"HTTP/1.1 200 OK\r\n\r\na\r\n\r\nb\n").2, b"a\r\n\r\nb\n");
}

#[test]
fn lengths_are_counted_in_bytes() {
    let (status, headers, body) =
        raw("HTTP/1.1 404 Não\r\nX-Ä: größe\r\n\r\nwörld".as_bytes());
    assert_eq!(status, 404);
    // The name is put in lower case as Unicode has it
    assert_eq!(headers.get("x-ä"), Some("größe"));
    assert_eq!(body, "wörld".as_bytes());
}

#[test]
fn without_an_empty_line_the_body_is_the_whole_payload() {
    let payload = b"HTTP/1.1 200 OK\r\nA: b";
    let (status, headers, body) = raw(payload);
    assert_eq!(status, 200);
    assert_eq!(headers.get("a"), Some("b"));
    assert_eq!(body, payload);
}

#[test]
fn bare_line_feeds_count_as_two_bytes_each() {
    let (_, headers, body) = raw(b"HTTP/1.1 200 OK\nA: b\n\nbody");
    assert_eq!(headers.get("a"), Some("b"));
    // Three line endings are one byte shorter than counted
    assert_eq!(body, b"y");
    assert_eq!(raw(b"HTTP/1.1 200 OK\n\nb").2, b"");
}

#[test]
fn header_lines_are_trimmed_and_the_last_of_a_name_stays() {
    let (_, headers, _) = raw(
        b"HTTP/1.1 200 OK\r\n  A :  1 \r\nno colon\r\na: 2:3\r\nEmpty:\r\n\r\n",
    );
    assert_eq!(headers.len(), 2);
    assert_eq!(headers.get("a"), Some("2:3"));
    assert_eq!(headers.get("empty"), Some(""));
}

#[test]
fn white_space_beyond_ascii_is_trimmed() {
    let (_, headers, _) = raw("HTTP/1.1\u{2003}200\r\nA:\u{a0}b\u{3000}\r\n\r\n".as_bytes());
    assert_eq!(headers.get("a"), Some("b"));
}

#[test]
fn the_status_is_the_second_word() {
    assert_eq!(raw(b"x 65535").0, 65535);
    assert_eq!(raw(b"  HTTP/2   +201  ").0, 201);
    assert_eq!(raw(b"x 007 y").0, 7);
}

#[test]
fn what_is_no_raw_response_is_refused() {
    assert_eq!(raw_error(b""), "Empty HTTP response");
    assert_eq!(raw_error(b"HTTP/1.1"), "Invalid HTTP status line: HTTP/1.1");
    assert_eq!(raw_error(b"HTTP/1.1 OK 200"), "Invalid HTTP status line: HTTP/1.1 OK 200");
    assert_eq!(raw_error(b"x 65536\r\n\r\n"), "Invalid HTTP status line: x 65536");
    assert_eq!(raw_error(b"x -1"), "Invalid HTTP status line: x -1");
    assert_eq!(raw_error(b"x +"), "Invalid HTTP status line: x +");
    assert_eq!(raw_error(b"\r\nx 200"), "Invalid HTTP status line: ");
    assert_eq!(
        raw_error(b"HTTP/1.1 200 OK\r\n\r\n\xff"),
        "Invalid UTF-8 in raw HTTP response: invalid utf-8 sequence of 1 bytes from index 19"
    );
    assert!(matches!(parse_raw_http_response(b""), Err(ResponseError::EmptyHttpResponse)));
}

fn json(is_base64_encoded: bool, body: Option<&str>) -> LambdaHttpResponse {
    let mut headers = StringMap::new();
    headers.insert("X-A".to_string(), "b".to_string());
    LambdaHttpResponse {
        is_base64_encoded,
        status_code: 201,
        status_description: None,
        headers,
        body: body.map(String::from),
    }
}

fn json_parts(response: LambdaHttpResponse) -> (u16, StringMap, Vec<u8>) {
    match parse_json_response(Ok(response)) {
        Ok(parts) => parts,
        Err(error) => panic!("{}", error.message()),
    }
}

#[test]
fn a_json_response_is_taken_apart() {
    let (status, headers, body) = json_parts(json(false, Some("größe")));
    assert_eq!(status, 201);
    assert_eq!(headers.get("X-A"), Some("b"));
    assert_eq!(headers.get("x-a"), None);
    assert_eq!(body, "größe".as_bytes());
    assert_eq!(json_parts(json(false, None)).2, b"");
    assert_eq!(json_parts(json(true, None)).2, b"");
    assert_eq!(json_parts(json(true, Some("AP8Q"))).2, [0x00, 0xff, 0x10]);
    assert_eq!(json_parts(json(true, Some(""))).2, b"");
}

#[test]
fn only_whole_base64_texts_are_decoded() {
    // Without its padding, with stray bits, with too much padding, in another alphabet
    for text in ["Zg", "Zh==", "Zg===", "Zm9v=", "-_--", "Zm 9v"] {
        assert!(parse_json_response(Ok(json(true, Some(text)))).is_err(), "{text}");
    }
    assert_eq!(json_parts(json(true, Some("Zg=="))).2, b"f");
    assert_eq!(json_parts(json(true, Some("+/++"))).2, b"\xfb\xff\xbe");
}

#[test]
fn what_is_no_json_response_is_refused() {
    let message = match parse_json_response(Ok(json(true, Some("!AAA")))) {
        Ok(_) => panic!("decoded"),
        Err(error) => error.message(),
    };
    assert_eq!(message, "Failed to decode base64 body: Invalid symbol 33, offset 0.");
    let message = match parse_json_response(Err("expected value".to_string())) {
        Ok(_) => panic!("parsed"),
        Err(error) => error.message(),
    };
    assert_eq!(message, "Failed to parse Lambda JSON response: expected value");
}
