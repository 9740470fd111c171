use libvmod_lambda::http_response::{parse_json_response, LambdaHttpResponse};
use libvmod_lambda::request::{
    assemble_request, body_source, build_request, extract_request_body, is_text_content_type,
    parse_path, path_and_query, BodySource,
};
use libvmod_lambda::string_map::StringMap;

#[test]
fn text_content_types() {
    for text in [
        "text/html",
        "TEXT/Plain; charset=utf-8",
        "application/json",
        "Application/JSON; charset=utf-8",
        "application/javascript",
        "application/xml",
        "application/x-www-form-urlencoded",
    ] {
        assert!(is_text_content_type(text), "{text}");
    }
    for binary in ["", "text", "image/png", " text/html", "application/octet-stream", "xtext/html"] {
        assert!(!is_text_content_type(binary), "{binary}");
    }
}

#[test]
fn the_beginning_of_a_content_type_decides() {
    assert!(is_text_content_type("Text/HTML; x=É"));
    assert!(!is_text_content_type("image/PNG; x=É"));
    assert!(!is_text_content_type("applicationÉ"));
}

#[test]
fn base64_texts_are_padded() {
    for (body, text) in [
        (&b"f"[..], "Zg=="),
        (b"fo", "Zm8="),
        (b"foo", "Zm9v"),
        (b"foob", "Zm9vYg=="),
        (b"\xfb\xff\xbe", "+/++"),
    ] {
        assert_eq!(extract_request_body(0, body, "image/png"), (text.to_string(), true));
    }
}

#[test]
fn lower_case_reaches_beyond_ascii() {
    // U+212A KELVIN SIGN is `k` in lower case
    assert!(!is_text_content_type("te\u{212a}t/html"));
    let fields = vec![("\u{212a}ey".to_string(), "v".to_string())];
    let prepared =
        assemble_request("GET".to_string(), ("/".to_string(), StringMap::new()), &fields, -1, b"");
    assert_eq!(prepared.request.headers.get("key"), Some("v"));
}

#[test]
fn a_path_is_split_from_its_query() {
    let (path, query) = parse_path("/a/b?x=1&y=two%20words&x=3");
    assert_eq!(path, "/a/b");
    assert_eq!(query.len(), 2);
    assert_eq!(query.get("x"), Some("3"));
    assert_eq!(query.get("y"), Some("two words"));

    let (path, query) = parse_path("/plain");
    assert_eq!(path, "/plain");
    assert_eq!(query.len(), 0);

    let (path, query) = parse_path("/x?flag&a=b+c");
    assert_eq!(path, "/x");
    assert_eq!(query.get("flag"), Some(""));
    assert_eq!(query.get("a"), Some("b c"));

    let (path, _) = parse_path("/a/../b");
    assert_eq!(path, "/b");
    let (path, query) = parse_path("?a=b#c");
    assert_eq!(path, "/");
    assert_eq!(query.get("a"), Some("b"));
}

#[test]
fn what_is_no_url_is_the_path() {
    let (path, query) = parse_path(":nope/x?a=b");
    assert_eq!(path, ":nope/x?a=b");
    assert_eq!(query.len(), 0);
    let (path, query) = path_and_query("/x?a=b", None);
    assert_eq!(path, "/x?a=b");
    assert_eq!(query.len(), 0);
}

#[test]
fn the_last_parameter_of_a_name_stays() {
    let pairs = vec![
        ("a".to_string(), "1".to_string()),
        ("b".to_string(), "2".to_string()),
        ("a".to_string(), "3".to_string()),
    ];
    let (path, query) = path_and_query("/ignored", Some(("/p".to_string(), pairs)));
    assert_eq!(path, "/p");
    assert_eq!(query.len(), 2);
    assert_eq!(query.get("a"), Some("3"));
    assert_eq!(query.get("b"), Some("2"));
    assert_eq!(query.get("c"), None);
}

#[test]
fn a_kept_body_comes_first() {
    assert_eq!(body_source(true, None), BodySource::Cached);
    assert_eq!(body_source(true, Some(true)), BodySource::Cached);
    assert_eq!(body_source(false, Some(true)), BodySource::Client);
    assert_eq!(body_source(false, Some(false)), BodySource::Absent);
    assert_eq!(body_source(false, None), BodySource::Absent);
}

#[test]
fn bodies_are_encoded_by_their_type() {
    assert_eq!(extract_request_body(0, b"hello", "text/plain"), ("hello".to_string(), false));
    assert_eq!(extract_request_body(0, b"hello", "image/png"), ("aGVsbG8=".to_string(), true));
    assert_eq!(extract_request_body(0, b"hello", ""), ("aGVsbG8=".to_string(), true));
    assert_eq!(extract_request_body(0, b"a\xffb", "text/plain"), ("a\u{fffd}b".to_string(), false));
    assert_eq!(extract_request_body(0, b"", "image/png"), (String::new(), false));
    assert_eq!(extract_request_body(-1, b"hello", "image/png"), (String::new(), false));
    assert_eq!(extract_request_body(1, &[0, 255, 16], "x"), ("AP8Q".to_string(), true));
}

#[test]
fn an_echoed_body_is_the_body() {
    let binary: Vec<u8> = (0..=255).collect();
    for (body, content_type) in [
        (binary.as_slice(), "application/octet-stream"),
        ("größe".as_bytes(), "text/plain"),
        (b"".as_slice(), "text/plain"),
        (b"".as_slice(), "image/png"),
    ] {
        let (text, is_base64_encoded) = extract_request_body(0, body, content_type);
        let response = LambdaHttpResponse {
            is_base64_encoded,
            status_code: 200,
            status_description: None,
            headers: StringMap::new(),
            body: Some(text),
        };
        match parse_json_response(Ok(response)) {
            Ok((_, _, returned)) => assert_eq!(returned, body),
            Err(error) => panic!("{}", error.message()),
        }
    }
}

#[test]
fn a_request_is_prepared() {
    let fields = vec![
        ("Host".to_string(), b"example.com".to_vec()),
        ("Content-Type".to_string(), b"text/plain".to_vec()),
        ("X-Raw".to_string(), b"\xff".to_vec()),
        ("host".to_string(), b"other".to_vec()),
    ];
    let prepared = build_request(Some(b"POST"), Some(b"/p?q=1"), &fields, 0, "hé".as_bytes());
    let request = prepared.request;
    assert_eq!(request.http_method, "POST");
    assert_eq!(request.path, "/p");
    assert_eq!(request.query_string_parameters.get("q"), Some("1"));
    assert_eq!(request.headers.len(), 3);
    assert_eq!(request.headers.get("host"), Some("other"));
    assert_eq!(request.headers.get("content-type"), Some("text/plain"));
    assert_eq!(request.headers.get("x-raw"), Some("\u{fffd}"));
    assert_eq!(request.body, "hé");
    assert!(!request.is_base64_encoded);
    // Four for ": " and "\r\n" of each field; U+FFFD takes three bytes
    assert_eq!(prepared.header_bytes, (4 + 11 + 4) + (12 + 10 + 4) + (5 + 3 + 4) + (4 + 5 + 4));
    assert_eq!(prepared.body_bytes, 3);
}

#[test]
fn a_bare_request_gets_defaults() {
    let prepared = build_request(None, None, &Vec::new(), -1, b"lost");
    assert_eq!(prepared.request.http_method, "GET");
    assert_eq!(prepared.request.path, "/");
    assert_eq!(prepared.request.query_string_parameters.len(), 0);
    assert_eq!(prepared.request.headers.len(), 0);
    assert_eq!(prepared.request.body, "");
    assert!(!prepared.request.is_base64_encoded);
    assert_eq!(prepared.header_bytes, 0);
    assert_eq!(prepared.body_bytes, 0);
}

#[test]
fn binary_bodies_count_as_they_are_sent() {
    let prepared = build_request(Some(b"PUT"), Some(b"/"), &Vec::new(), 0, b"hello");
    assert_eq!(prepared.request.body, "aGVsbG8=");
    assert!(prepared.request.is_base64_encoded);
    assert_eq!(prepared.body_bytes, 8);
}

#[test]
fn a_method_need_not_be_utf8() {
    let prepared = build_request(Some(b"G\xff"), Some(b"/\xff"), &Vec::new(), -1, b"");
    assert_eq!(prepared.request.http_method, "G\u{fffd}");
    assert_eq!(prepared.request.path, "/%EF%BF%BD");
}

#[test]
fn maps_hand_out_their_entries() {
    let mut map = StringMap::new();
    assert_eq!(map.wire_bytes(), 0);
    map.insert("a".to_string(), "1".to_string());
    map.insert("bb".to_string(), "2".to_string());
    map.insert("a".to_string(), "333".to_string());
    assert_eq!(map.len(), 2);
    let entries: Vec<(&str, &str)> = (0..map.len()).map(|at| map.entry(at)).collect();
    assert!(entries.contains(&("a", "333")));
    assert!(entries.contains(&("bb", "2")));
    assert_eq!(map.wire_bytes(), (1 + 3 + 4) + (2 + 1 + 4));
}
