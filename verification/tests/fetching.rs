use bytes::Bytes;
use libvmod_lambda::backend::backend;
use libvmod_lambda::body::BackendResp;
use libvmod_lambda::fetch::{BackendResponse, FetchError, Fetched, Payload, VCLBackend};
use libvmod_lambda::http_response::LambdaHttpResponse;
use libvmod_lambda::invocation::{
    classify_failure, invocation_result, Failure, Invocation, InvokeResponse,
    MAX_CONCURRENT_INVOCATIONS,
};
use libvmod_lambda::probe::{Probe, ProbeRequest, Span};
use libvmod_lambda::stats::LambdaBackendStats;
use libvmod_lambda::string_map::StringMap;

const NOW: Span = Span { secs: 1_700_000_000, nanos: 5 };

fn probe() -> Probe {
    Probe {
        request: ProbeRequest::Url("/ok".to_string()),
        timeout: Span { secs: 3, nanos: 0 },
        interval: Span { secs: 5, nanos: 0 },
        exp_status: 0,
        window: 5,
        threshold: 3,
        initial: 0,
    }
}

fn make(probe: Option<Probe>, format: &str) -> VCLBackend<u8> {
    match backend::new("fn1", "my-lambda", 9u8, None, probe, format, NOW) {
        Ok(made) => made.be,
        Err(error) => panic!("{}", error.message()),
    }
}

fn answered(payload: Option<&[u8]>, function_error: Option<&str>) -> InvokeResponse {
    InvokeResponse {
        status_code: 200,
        payload: payload.map(Bytes::copy_from_slice),
        function_error: function_error.map(String::from),
    }
}

fn failure<T>(result: Result<T, FetchError>) -> String {
    match result {
        Ok(_) => panic!("expected an error"),
        Err(error) => error.message(),
    }
}

fn delivered(result: Result<BackendResponse, FetchError>) -> BackendResponse {
    match result {
        Ok(response) => response,
        Err(error) => panic!("{}", error.message()),
    }
}

fn read_to_end(mut body: BackendResp, room: usize) -> Vec<u8> {
    let mut all = Vec::new();
    loop {
        let mut buf = vec![0; room];
        let n = body.read(&mut buf);
        if n == 0 {
            return all;
        }
        all.extend_from_slice(&buf[..n]);
    }
}

#[test]
fn a_backend_without_a_probe_is_healthy() {
    let mut be = make(None, "json");
    assert_eq!(be.healthy(), (true, Span { secs: 0, nanos: 0 }));
    assert_eq!(be.stats.happy, u64::MAX);
    assert!(be.let_in().is_ok());
    assert_eq!(be.stats.req, 1);
    assert_eq!(be.stats.fail, 0);
}

#[test]
fn a_sick_backend_turns_requests_away() {
    let mut be = make(Some(probe()), "json");
    assert_eq!(be.healthy(), (false, NOW));
    assert_eq!(failure(be.let_in()), "unhealthy");
    assert_eq!(
        be.stats,
        LambdaBackendStats { req: 1, fail: 1, ..LambdaBackendStats::new() }
    );

    if let Some(state) = be.probe_state.as_mut() {
        state.history = 0b111;
    }
    assert!(be.let_in().is_ok());
    assert_eq!(
        be.stats,
        LambdaBackendStats { req: 2, fail: 1, happy: 0b111, ..LambdaBackendStats::new() }
    );
}

#[test]
fn an_invocation_is_made_ready() {
    let mut be = make(None, "json");
    match be.begin_invocation(Ok(vec![1, 2]), 30, 40) {
        Ok(request) => {
            assert_eq!(request.function_name, "my-lambda");
            assert_eq!(request.payload, [1, 2]);
            assert_eq!(request.client, 9);
            assert_eq!(request.timeout_secs, 62);
        }
        Err(error) => panic!("{}", error.message()),
    }
    assert_eq!(
        be.stats,
        LambdaBackendStats {
            bereq_hdrbytes: 30,
            bereq_bodybytes: 40,
            inflight: 1,
            ..LambdaBackendStats::new()
        }
    );
}

#[test]
fn a_request_that_cannot_be_serialized_fails() {
    let mut be = make(None, "json");
    let result = be.begin_invocation(Err("no".to_string()), 30, 40);
    assert_eq!(failure(result), "Failed to serialize request: no");
    assert_eq!(be.stats, LambdaBackendStats { fail: 1, ..LambdaBackendStats::new() });
}

fn after_invocation(result: Result<InvokeResponse, String>) -> (LambdaBackendStats, String) {
    let mut be = make(None, "json");
    be.stats.inflight = 4;
    let message = failure(be.end_invocation(12, result));
    assert_eq!(be.stats.inflight, 3);
    assert_eq!(be.stats.invoke_time_ms, 12);
    (be.stats, message)
}

#[test]
fn failed_invocations_are_counted_by_their_kind() {
    let (stats, message) = after_invocation(Err("Lambda invocation timed out after 62s".to_string()));
    assert_eq!(message, "Lambda invocation timed out after 62s");
    assert_eq!((stats.fail, stats.timeout, stats.throttled), (1, 1, 0));

    let (stats, _) = after_invocation(Err("x TooManyRequestsException y".to_string()));
    assert_eq!((stats.fail, stats.timeout, stats.throttled), (1, 0, 1));

    let (stats, _) = after_invocation(Err("connect timeout, ThrottlingException".to_string()));
    assert_eq!((stats.fail, stats.timeout, stats.throttled), (1, 1, 0));

    let (stats, _) = after_invocation(Err("channel closed".to_string()));
    assert_eq!((stats.fail, stats.timeout, stats.throttled), (1, 0, 0));

    let (stats, message) = after_invocation(Ok(answered(Some(b"{}"), Some("Unhandled"))));
    assert_eq!(message, "Lambda error: Unhandled");
    assert_eq!((stats.fail, stats.function_error), (1, 1));

    let (stats, message) = after_invocation(Ok(answered(None, None)));
    assert_eq!(message, "Empty Lambda response");
    assert_eq!((stats.fail, stats.function_error), (1, 0));
}

#[test]
fn failures_are_told_apart() {
    assert_eq!(classify_failure("timeout"), Failure::Timeout);
    assert_eq!(classify_failure("it timed out."), Failure::Timeout);
    assert_eq!(classify_failure("ThrottlingException"), Failure::Throttled);
    assert_eq!(classify_failure("TooManyRequestsException"), Failure::Throttled);
    assert_eq!(classify_failure("Timeout"), Failure::Other);
    assert_eq!(classify_failure("timed  out"), Failure::Other);
    assert_eq!(classify_failure(""), Failure::Other);
}

#[test]
fn a_payload_is_read_as_the_backend_says() {
    let mut be = make(None, "json");
    assert!(matches!(be.end_invocation(0, Ok(answered(Some(b"{}"), None))), Ok(Payload::Json(p)) if p == "{}"));
    let mut be = make(None, "http");
    assert!(matches!(be.end_invocation(0, Ok(answered(Some(b"x"), None))), Ok(Payload::Raw(p)) if p == "x"));
    assert_eq!(be.stats.fail, 0);
}

#[test]
fn a_raw_response_is_delivered() {
    let mut be = make(None, "http");
    let payload = Bytes::from_static(b"HTTP/1.1 200 OK\r\nAb: cde\r\n\r\nbody");
    let response = delivered(be.receive_raw(&payload));
    assert_eq!(response.status, 200);
    assert_eq!(response.headers.get("ab"), Some("cde"));
    assert_eq!(response.body.len(), Some(4));
    assert_eq!(read_to_end(response.body, 3), b"body");
    assert_eq!(
        be.stats,
        LambdaBackendStats {
            beresp_hdrbytes: 2 + 2 + 3 + 2,
            beresp_bodybytes: 4,
            ..LambdaBackendStats::new()
        }
    );
}

#[test]
fn a_json_response_is_delivered() {
    let mut be = make(None, "json");
    let mut headers = StringMap::new();
    headers.insert("a".to_string(), "b".to_string());
    headers.insert("c".to_string(), "dd".to_string());
    let response = delivered(be.receive_json(Ok(LambdaHttpResponse {
        is_base64_encoded: true,
        status_code: 500,
        status_description: Some("ignored".to_string()),
        headers,
        body: Some("AP8Q".to_string()),
    })));
    assert_eq!(response.status, 500);
    assert_eq!(response.headers.len(), 2);
    assert_eq!(read_to_end(response.body, 100), [0x00, 0xff, 0x10]);
    assert_eq!(
        be.stats,
        LambdaBackendStats {
            beresp_hdrbytes: 6 + 7,
            beresp_bodybytes: 3,
            function_error: 1,
            ..LambdaBackendStats::new()
        }
    );
}

#[test]
fn status_codes_outside_success_are_function_errors() {
    for (status, errors) in [(199, 1), (200, 0), (204, 0), (299, 0), (300, 1), (404, 1), (0, 1)] {
        let mut be = make(None, "json");
        be.deliver(status, StringMap::new(), Vec::new());
        assert_eq!(be.stats.function_error, errors, "{status}");
        assert_eq!(be.stats.fail, 0);
    }
}

#[test]
fn what_is_no_response_is_a_failure() {
    let mut be = make(None, "http");
    assert_eq!(failure(be.receive_raw(&Bytes::new())), "Empty HTTP response");
    assert_eq!(
        failure(be.receive_json(Err("EOF".to_string()))),
        "Failed to parse Lambda JSON response: EOF"
    );
    let undecodable = LambdaHttpResponse {
        is_base64_encoded: true,
        status_code: 200,
        status_description: None,
        headers: StringMap::new(),
        body: Some("!".to_string()),
    };
    assert!(failure(be.receive_json(Ok(undecodable))).starts_with("Failed to decode base64 body: "));
    assert_eq!(be.stats, LambdaBackendStats { fail: 3, ..LambdaBackendStats::new() });
}

#[test]
fn what_cannot_be_handed_on_is_a_failure() {
    let mut be = make(None, "json");
    assert!(be.end_delivery(Ok(())).is_ok());
    assert_eq!(be.stats, LambdaBackendStats::new());
    assert_eq!(failure(be.end_delivery(Err("no room".to_string()))), "no room");
    assert_eq!(be.stats, LambdaBackendStats { fail: 1, ..LambdaBackendStats::new() });
}

#[test]
fn a_whole_request_adds_up() {
    let mut be = make(None, "http");
    be.stats.inflight = u64::MAX;
    assert!(be.let_in().is_ok());
    assert!(be.begin_invocation(Ok(vec![]), 1, 2).is_ok());
    assert_eq!(be.stats.inflight, 0);
    match be.finish_fetch(3, Ok(answered(Some(b"x 404\r\n\r\nabc"), None))) {
        Ok(Fetched::Response(response)) => assert_eq!(response.status, 404),
        _ => panic!("expected a response"),
    }
    assert_eq!(
        be.stats,
        LambdaBackendStats {
            req: 1,
            bereq_hdrbytes: 1,
            bereq_bodybytes: 2,
            beresp_hdrbytes: 0,
            beresp_bodybytes: 3,
            fail: 0,
            function_error: 1,
            timeout: 0,
            throttled: 0,
            inflight: u64::MAX,
            invoke_time_ms: 3,
            happy: u64::MAX,
        }
    );
}

#[test]
fn a_fetch_ends_as_its_invocation_did() {
    let mut raw = make(None, "http");
    assert_eq!(failure(raw.finish_fetch(1, Err("gone".to_string()))), "gone");
    assert_eq!(failure(raw.finish_fetch(1, Ok(answered(Some(b"x"), Some("E"))))), "Lambda error: E");
    assert_eq!(failure(raw.finish_fetch(1, Ok(answered(None, None)))), "Empty Lambda response");
    assert_eq!(raw.stats.fail, 3);
    assert_eq!(
        failure(raw.finish_fetch(1, Ok(answered(Some(b"x"), None)))),
        "Invalid HTTP status line: x"
    );
    assert_eq!(raw.stats.fail, 4);
    assert_eq!(raw.stats.invoke_time_ms, 4);

    let mut json = make(None, "json");
    match json.finish_fetch(1, Ok(answered(Some(b"x 200\r\n\r\n"), None))) {
        Ok(Fetched::Json(payload)) => assert_eq!(payload, "x 200\r\n\r\n"),
        _ => panic!("expected a payload in JSON"),
    }
    assert_eq!(json.stats.fail, 0);
}

#[test]
fn invocations_end_in_responses_or_messages() {
    match invocation_result(62, Invocation::TimedOut) {
        Err(message) => {
            assert_eq!(message, "Lambda invocation timed out after 62s");
            assert_eq!(classify_failure(&message), Failure::Timeout);
        }
        Ok(_) => panic!("expected a timeout"),
    }
    match invocation_result(62, Invocation::Failed("TooManyRequestsException { .. }".to_string())) {
        Err(message) => {
            assert_eq!(message, "Lambda invocation failed: TooManyRequestsException { .. }");
            assert_eq!(classify_failure(&message), Failure::Throttled);
        }
        Ok(_) => panic!("expected a failure"),
    }
    let answer = Invocation::Answered {
        status_code: 202,
        payload: Some(b"abc"),
        function_error: Some("Unhandled".to_string()),
    };
    match invocation_result(62, answer) {
        Ok(response) => {
            assert_eq!(response.status_code, 202);
            assert_eq!(response.payload, Some(Bytes::from_static(b"abc")));
            assert_eq!(response.function_error.as_deref(), Some("Unhandled"));
        }
        Err(message) => panic!("{message}"),
    }
    let silent = Invocation::Answered { status_code: 200, payload: None, function_error: None };
    assert!(matches!(invocation_result(62, silent), Ok(InvokeResponse { payload: None, .. })));
    assert_eq!(MAX_CONCURRENT_INVOCATIONS, 500_000);
}

#[test]
fn a_body_is_read_piece_by_piece() {
    let mut body = BackendResp { payload: Some(Bytes::from_static(b"abcde")), cursor: 0 };
    assert_eq!(body.len(), Some(5));
    let mut buf = *b"....";
    assert_eq!(body.read(&mut buf[..3]), 3);
    assert_eq!(&buf, b"abc.");
    assert_eq!(body.cursor, 3);
    assert_eq!(body.read(&mut []), 0);
    assert_eq!(body.read(&mut buf), 2);
    assert_eq!(&buf, b"dec.");
    assert_eq!(body.read(&mut buf), 0);
    assert_eq!(body.len(), Some(5));
}

#[test]
fn a_missing_or_exhausted_body_reads_as_nothing() {
    let mut buf = *b"..";
    let mut none = BackendResp { payload: None, cursor: 0 };
    assert_eq!(none.read(&mut buf), 0);
    assert_eq!(none.len(), None);
    let mut beyond = BackendResp { payload: Some(Bytes::from_static(b"ab")), cursor: 7 };
    assert_eq!(beyond.read(&mut buf), 0);
    assert_eq!(beyond.cursor, 7);
    assert_eq!(&buf, b"..");
}

#[test]
fn however_it_is_read_the_body_comes_in_order() {
    for room in [1, 2, 3, 7, 100] {
        let body = BackendResp { payload: Some(Bytes::from_static(b"hello, world")), cursor: 0 };
        assert_eq!(read_to_end(body, room), b"hello, world");
    }
}
