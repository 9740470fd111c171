use bytes::Bytes;
use libvmod_lambda::backend::backend;
use libvmod_lambda::exchange::{FetchAction, FetchEvent, Stage};
use libvmod_lambda::fetch::VCLBackend;
use libvmod_lambda::http_response::LambdaHttpResponse;
use libvmod_lambda::invocation::InvokeResponse;
use libvmod_lambda::probe::{Probe, ProbeRequest, Span};
use libvmod_lambda::stats::LambdaBackendStats;
use libvmod_lambda::string_map::StringMap;

const NOW: Span = Span { secs: 1, nanos: 0 };

fn make(probe: Option<Probe>, format: &str) -> VCLBackend<u8> {
    match backend::new("fn1", "my-lambda", 9u8, None, probe, format, NOW) {
        Ok(made) => made.be,
        Err(error) => panic!("{}", error.message()),
    }
}

fn answered(payload: &[u8]) -> Result<InvokeResponse, String> {
    Ok(InvokeResponse {
        status_code: 200,
        payload: Some(Bytes::copy_from_slice(payload)),
        function_error: None,
    })
}

/// Takes a request on until its invocation.
fn to_invocation(be: &mut VCLBackend<u8>) -> Stage {
    let (stage, action) = be.get_response(Stage::Arrived, FetchEvent::Begun);
    assert_eq!(stage, Stage::LetIn);
    assert!(matches!(action, FetchAction::Collect));

    let fields = vec![("Content-Type".to_string(), b"image/png".to_vec())];
    let event = FetchEvent::Collected {
        method: Some(b"PUT"),
        url: Some(b"/x?y=z"),
        fields: &fields,
        body_result: 0,
        body: b"hello",
    };
    let (stage, action) = be.get_response(stage, event);
    assert_eq!(stage, Stage::Prepared { header_bytes: 12 + 9 + 4, body_bytes: 8 });
    match action {
        FetchAction::Serialize(request) => {
            assert_eq!(request.http_method, "PUT");
            assert_eq!(request.path, "/x");
            assert_eq!(request.query_string_parameters.get("y"), Some("z"));
            assert_eq!(request.headers.get("content-type"), Some("image/png"));
            assert_eq!(request.body, "aGVsbG8=");
            assert!(request.is_base64_encoded);
        }
        _ => panic!("expected a request to serialize"),
    }

    let event = FetchEvent::Serialized(Ok(vec![1, 2]));
    let (stage, action) = be.get_response(stage, event);
    assert_eq!(stage, Stage::Invoking);
    match action {
        FetchAction::Invoke(request) => {
            assert_eq!(request.function_name, "my-lambda");
            assert_eq!(request.payload, [1, 2]);
            assert_eq!(request.client, 9);
            assert_eq!(request.timeout_secs, 62);
        }
        _ => panic!("expected an invocation"),
    }
    assert_eq!(be.stats.inflight, 1);
    stage
}

fn sent() -> LambdaBackendStats {
    LambdaBackendStats {
        req: 1,
        bereq_hdrbytes: 25,
        bereq_bodybytes: 8,
        invoke_time_ms: 5,
        happy: u64::MAX,
        ..LambdaBackendStats::new()
    }
}

#[test]
fn a_request_is_served_with_a_raw_response() {
    let mut be = make(None, "http");
    let stage = to_invocation(&mut be);
    let result = answered(b"HTTP/1.1 203 x\r\nA: b\r\n\r\nbody");
    let (stage, action) = be.get_response(stage, FetchEvent::Invoked { elapsed_ms: 5, result });
    assert_eq!(stage, Stage::Delivering);
    match action {
        FetchAction::Deliver(mut response) => {
            assert_eq!(response.status, 203);
            assert_eq!(response.headers.get("a"), Some("b"));
            let mut buf = [0; 8];
            assert_eq!(response.body.read(&mut buf), 4);
            assert_eq!(&buf[..4], b"body");
        }
        _ => panic!("expected a response"),
    }
    let (stage, action) = be.get_response(stage, FetchEvent::Delivered(Ok(())));
    assert_eq!(stage, Stage::Over);
    assert!(matches!(action, FetchAction::Finish));
    assert_eq!(
        be.stats,
        LambdaBackendStats { beresp_hdrbytes: 6, beresp_bodybytes: 4, ..sent() }
    );
}

#[test]
fn a_request_is_served_with_a_response_in_json() {
    let mut be = make(None, "json");
    let stage = to_invocation(&mut be);
    let result = answered(b"{}");
    let (stage, action) = be.get_response(stage, FetchEvent::Invoked { elapsed_ms: 5, result });
    assert_eq!(stage, Stage::Decoding);
    assert!(matches!(action, FetchAction::Decode(payload) if payload == "{}"));
    let json = LambdaHttpResponse {
        is_base64_encoded: false,
        status_code: 404,
        status_description: None,
        headers: StringMap::new(),
        body: Some("gone".to_string()),
    };
    let (stage, action) = be.get_response(stage, FetchEvent::Decoded(Ok(json)));
    assert_eq!(stage, Stage::Delivering);
    assert!(matches!(action, FetchAction::Deliver(response) if response.status == 404));
    let counted = LambdaBackendStats { beresp_bodybytes: 4, function_error: 1, ..sent() };
    assert_eq!(be.stats, counted);

    // A response that cannot be handed on fails the request
    let (stage, action) = be.get_response(stage, FetchEvent::Delivered(Err("no".to_string())));
    assert_eq!(stage, Stage::Over);
    assert_eq!(failure(action), "no");
    assert_eq!(be.stats, LambdaBackendStats { fail: 1, ..counted });
}

fn failure(action: FetchAction<u8>) -> String {
    match action {
        FetchAction::Fail(error) => error.message(),
        _ => panic!("expected a failure"),
    }
}

#[test]
fn a_request_fails_where_it_must() {
    let mut be = make(None, "http");
    let stage = to_invocation(&mut be);
    let result = Err("it timed out".to_string());
    let (stage, action) = be.get_response(stage, FetchEvent::Invoked { elapsed_ms: 5, result });
    assert_eq!(stage, Stage::Over);
    assert_eq!(failure(action), "it timed out");
    assert_eq!(be.stats, LambdaBackendStats { fail: 1, timeout: 1, ..sent() });

    let mut be = make(None, "http");
    let stage = to_invocation(&mut be);
    let result = answered(b"nothing");
    let (stage, action) = be.get_response(stage, FetchEvent::Invoked { elapsed_ms: 5, result });
    assert_eq!(stage, Stage::Over);
    assert_eq!(failure(action), "Invalid HTTP status line: nothing");
    assert_eq!(be.stats, LambdaBackendStats { fail: 1, ..sent() });

    let mut be = make(None, "json");
    let event = FetchEvent::Serialized(Err("no".to_string()));
    let (stage, action) =
        be.get_response(Stage::Prepared { header_bytes: 1, body_bytes: 2 }, event);
    assert_eq!(stage, Stage::Over);
    assert_eq!(failure(action), "Failed to serialize request: no");
    assert_eq!(be.stats, LambdaBackendStats { fail: 1, ..LambdaBackendStats::new() });

    let (stage, action) =
        be.get_response(Stage::Decoding, FetchEvent::Decoded(Err("EOF".to_string())));
    assert_eq!(stage, Stage::Over);
    assert_eq!(failure(action), "Failed to parse Lambda JSON response: EOF");
    assert_eq!(be.stats.fail, 2);
}

#[test]
fn a_sick_backend_serves_nothing() {
    let probe = Probe {
        request: ProbeRequest::Url("/ok".to_string()),
        timeout: Span { secs: 1, nanos: 0 },
        interval: Span { secs: 1, nanos: 0 },
        exp_status: 0,
        window: 5,
        threshold: 3,
        initial: 0,
    };
    let mut be = make(Some(probe), "json");
    let (stage, action) = be.get_response(Stage::Arrived, FetchEvent::Begun);
    assert_eq!(stage, Stage::Over);
    assert_eq!(failure(action), "unhealthy");
    assert_eq!(be.stats, LambdaBackendStats { req: 1, fail: 1, ..LambdaBackendStats::new() });
}

#[test]
fn events_out_of_turn_change_nothing() {
    let mut be = make(None, "json");
    for stage in [
        Stage::LetIn,
        Stage::Invoking,
        Stage::Decoding,
        Stage::Delivering,
        Stage::Over,
    ] {
        let (next, action) = be.get_response(stage, FetchEvent::Begun);
        assert_eq!(next, stage);
        assert!(matches!(action, FetchAction::Ignore));
    }
    let event = FetchEvent::Invoked { elapsed_ms: 9, result: answered(b"x") };
    let (next, action) = be.get_response(Stage::Arrived, event);
    assert_eq!(next, Stage::Arrived);
    assert!(matches!(action, FetchAction::Ignore));
    assert_eq!(be.stats, LambdaBackendStats::new());
}
