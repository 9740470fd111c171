use libvmod_lambda::backend::{backend, BackendError, InvokeError, ResponseFormat};
use libvmod_lambda::backend::{event, invoke_reply, ProbeAction, RuntimeAction, VclEvent};
use libvmod_lambda::invocation::InvokeResponse;
use libvmod_lambda::listing::draw_history;
use libvmod_lambda::numbers::{decimal_text, decimal_text_in_two, signed_decimal_text};
use libvmod_lambda::probe::{
    build_probe_state, judge_probe, sanitize, Probe, ProbeError, ProbeRequest, ProbeState, Span,
};
use bytes::Bytes;

const NOW: Span = Span { secs: 1_700_000_000, nanos: 5 };
const NO_TIME: Span = Span { secs: 0, nanos: 0 };

fn probe(window: u32, threshold: u32, initial: u32) -> Probe {
    Probe {
        request: ProbeRequest::Url("/ok?x=1".to_string()),
        timeout: NO_TIME,
        interval: NO_TIME,
        exp_status: 200,
        window,
        threshold,
        initial,
    }
}

fn state(window: u32, threshold: u32, initial: u32) -> ProbeState {
    match build_probe_state(probe(window, threshold, initial), NOW) {
        Ok(state) => state,
        Err(error) => panic!("{}", error.message()),
    }
}

fn response(status_code: i32, function_error: Option<&str>) -> Result<InvokeResponse, String> {
    Ok(InvokeResponse {
        status_code,
        payload: None,
        function_error: function_error.map(String::from),
    })
}

#[test]
fn a_bare_probe_gets_defaults() {
    let spec = sanitize(probe(0, 0, 0));
    assert_eq!(spec.timeout, Span { secs: 2, nanos: 0 });
    assert_eq!(spec.interval, Span { secs: 5, nanos: 0 });
    assert_eq!((spec.window, spec.threshold, spec.initial), (8, 3, 2));
    assert_eq!(spec.exp_status, 200);
}

#[test]
fn what_a_probe_says_stands() {
    let mut given = probe(5, 4, 3);
    given.timeout = Span { secs: 0, nanos: 1 };
    given.interval = Span { secs: 7, nanos: 0 };
    let spec = sanitize(given);
    assert_eq!(spec.timeout, Span { secs: 0, nanos: 1 });
    assert_eq!(spec.interval, Span { secs: 7, nanos: 0 });
    assert_eq!((spec.window, spec.threshold, spec.initial), (5, 4, 3));
    // No more good probes than make the backend healthy
    assert_eq!(sanitize(probe(5, 4, 9)).initial, 4);
    assert_eq!(sanitize(probe(5, 1, 0)).initial, 0);
}

#[test]
fn sanitizing_twice_changes_nothing() {
    for (window, threshold, initial) in [(0, 0, 0), (5, 1, 0), (70, 9, 100), (1, 2, 3)] {
        let once = sanitize(probe(window, threshold, initial));
        let (w, t, i) = (once.window, once.threshold, once.initial);
        let twice = sanitize(once);
        assert_eq!((twice.window, twice.threshold, twice.initial), (w, t, i));
    }
}

#[test]
fn a_probe_asks_for_its_path() {
    let state = state(0, 0, 0);
    assert_eq!(state.history, 0);
    assert_eq!(state.health_changed, NOW);
    assert_eq!(state.request.http_method, "GET");
    assert_eq!(state.request.path, "/ok?x=1");
    assert_eq!(state.request.query_string_parameters.len(), 0);
    assert_eq!(state.request.headers.len(), 0);
    assert_eq!(state.request.body, "");
    assert!(!state.request.is_base64_encoded);
}

#[test]
fn a_probe_invokes_the_function() {
    let mut given = probe(0, 0, 0);
    given.timeout = Span { secs: 4, nanos: 999_999_999 };
    match made(Some(given)).be.probe_invocation(vec![5, 6]) {
        Some(request) => {
            assert_eq!(request.function_name, "my-lambda");
            assert_eq!(request.payload, [5, 6]);
            assert_eq!(request.client, 9);
            assert_eq!(request.timeout_secs, 4);
        }
        None => panic!("expected an invocation"),
    }
    assert!(made(None).be.probe_invocation(vec![]).is_none());
}

#[test]
fn probes_with_a_written_request_are_refused() {
    let mut written = probe(0, 0, 0);
    written.request = ProbeRequest::Text("GET / HTTP/1.1".to_string());
    match build_probe_state(written, NOW) {
        Err(error) => assert_eq!(
            error.message(),
            "Text-based probe requests (.request) are not yet supported. Use .url instead"
        ),
        Ok(_) => panic!("expected an error"),
    }
    assert_eq!(
        ProbeError::Serialize("no".to_string()).message(),
        "Failed to serialize probe request: no"
    );
}

#[test]
fn probes_are_judged() {
    let good = judge_probe(&response(200, None));
    assert!(good.good);
    assert_eq!(good.message, "Success: status 200");

    let bad = judge_probe(&response(202, None));
    assert!(!bad.good);
    assert_eq!(bad.message, "Error: status 202, function_error: None");

    let bad = judge_probe(&response(200, Some("Un\"handled")));
    assert!(!bad.good);
    assert_eq!(bad.message, "Error: status 200, function_error: Some(\"Un\\\"handled\")");

    let bad = judge_probe(&response(-1, None));
    assert_eq!(bad.message, "Error: status -1, function_error: None");

    let bad = judge_probe(&Err("gone".to_string()));
    assert!(!bad.good);
    assert_eq!(bad.message, "Error: gone");
}

#[test]
fn the_first_good_probe_makes_healthy() {
    let mut state = state(0, 0, 0);
    state.start();
    assert_eq!(state.history, 0b11);
    assert!(!state.is_healthy());

    let line = state.record_and_log("my-fn", &judge_probe(&response(200, None)), "0.5", "0.25");
    assert_eq!(line, "my-fn Went healthy my-fn 3 3 8 0.5 0.25 Success: status 200");
    assert!(state.is_healthy());
    assert_eq!(state.history, 0b111);

    let line = state.record_and_log("my-fn", &judge_probe(&Err("x".to_string())), "0", "0.25");
    assert_eq!(line, "my-fn Still healthy my-fn 3 3 8 0 0.25 Error: x");
    assert_eq!(state.history, 0b1110);
}

#[test]
fn a_backend_becomes_sick_when_good_probes_leave_the_window() {
    let mut state = state(3, 3, 3);
    state.start();
    assert!(state.is_healthy());
    let update = state.record(false);
    assert!(!update.is_healthy);
    assert!(!update.health_unchanged);
    assert_eq!(update.bitmap, 0b1110);
    let line = state.record_and_log("f", &judge_probe(&response(500, None)), "0", "0");
    assert_eq!(line, "f Still sick f 1 3 3 0 0 Error: status 500, function_error: None");
}

fn made(probe: Option<Probe>) -> backend<u8> {
    match backend::new("fn1", "my-lambda", 9u8, Some(Span { secs: 30, nanos: 9 }), probe, "json", NOW) {
        Ok(made) => made,
        Err(error) => panic!("{}", error.message()),
    }
}

#[test]
fn backends_without_a_probe_are_listed() {
    let mut be = made(None).be;
    assert_eq!(be.list("0", "{}", true, true), "[0, 0, \"healthy\"],");
    assert_eq!(be.list("0", "{}", false, true), "[]");
    assert_eq!(be.list("0", "{}", true, false), "0/0\thealthy");
    assert_eq!(be.list("0", "{}", false, false), "");
    assert_eq!(be.stats.happy, u64::MAX);
}

#[test]
fn backends_with_a_probe_are_listed() {
    let mut be = made(Some(probe(10, 3, 0))).be;
    if let Some(state) = be.probe_state.as_mut() {
        state.history = (1 << 63) | 0b101;
    }
    assert_eq!(be.list("0.1", "{\"a\":1}", false, true), "[2, 10, \"sick\"]");
    assert_eq!(be.list("0.1", "{\"a\":1}", true, true), "{\"a\":1},\n");
    assert_eq!(be.list("0.1", "{\"a\":1}", false, false), "2/10\tsick");
    assert_eq!(
        be.list("0.123457", "", true, false),
        "
 Current states  good:  2 threshold:  3 window: 10
  Average response time of good probes: 0.123457
  Oldest ================================================== Newest
  H------------------------------------------------------------H-H"
    );
    assert_eq!(be.stats.happy, 0);
    if let Some(state) = be.probe_state.as_mut() {
        state.history = 0b111;
    }
    assert_eq!(be.list("", "", false, false), "3/10\thealthy");
}

#[test]
fn a_picture_shows_the_good_probes() {
    assert_eq!(draw_history(0), "-".repeat(64));
    assert_eq!(draw_history(u64::MAX), "H".repeat(64));
    let picture = draw_history(0xf0f0);
    assert_eq!(&picture[48..], "HHHH----HHHH----");
    assert_eq!(picture.matches('H').count(), 8);
}

#[test]
fn numbers_are_printed() {
    assert_eq!(decimal_text(0), "0");
    assert_eq!(decimal_text(u64::MAX), "18446744073709551615");
    assert_eq!(signed_decimal_text(i32::MIN), "-2147483648");
    assert_eq!(signed_decimal_text(200), "200");
    assert_eq!(decimal_text_in_two(7), " 7");
    assert_eq!(decimal_text_in_two(64), "64");
    assert_eq!(decimal_text_in_two(100), "100");
}

#[test]
fn a_backend_is_created() {
    let made = made(None);
    assert_eq!(made.name, "fn1");
    assert_eq!(made.be.name, "fn1");
    assert_eq!(made.get_function_name(), "my-lambda");
    assert_eq!(made.be.client, 9);
    assert_eq!(made.be.timeout_secs, 30);
    assert!(!made.be.raw_response_mode);
    assert!(made.be.probe_state.is_none());
    assert_eq!(made.get_region(Some("us-east-2")), "us-east-2");
    assert_eq!(made.get_region(None), "unknown");
}

#[test]
fn the_response_format_decides_the_mode() {
    assert_eq!(ResponseFormat::find("json"), Some(ResponseFormat::Json));
    assert_eq!(ResponseFormat::find("http"), Some(ResponseFormat::Http));
    assert_eq!(ResponseFormat::find("HTTP"), None);
    match backend::new("b", "f", (), None, None, "http", NOW) {
        Ok(made) => {
            assert!(made.be.raw_response_mode);
            assert_eq!(made.be.timeout_secs, 62);
        }
        Err(error) => panic!("{}", error.message()),
    }
    match backend::new("b", "f", (), None, None, "xml", NOW) {
        Ok(_) => panic!("expected an error"),
        Err(error) => assert_eq!(
            error.message(),
            "Invalid response_format 'xml': must be 'json' or 'http'"
        ),
    }
    for raw in [false, true] {
        match backend::with_raw_response_mode("b", "f", (), None, None, raw, NOW) {
            Ok(made) => assert_eq!(made.be.raw_response_mode, raw),
            Err(error) => panic!("{}", error.message()),
        }
    }
}

#[test]
fn a_backend_is_refused_with_its_probe() {
    let mut written = probe(0, 0, 0);
    written.request = ProbeRequest::Text("GET /".to_string());
    match backend::new("b", "f", (), None, Some(written), "json", NOW) {
        Ok(_) => panic!("expected an error"),
        Err(error) => {
            assert!(matches!(error, BackendError::Probe { .. }));
            assert_eq!(
                error.message(),
                "lambda: failed to add probe to b (Text-based probe requests (.request) are not \
                 yet supported. Use .url instead)"
            );
        }
    }
}

#[test]
fn an_invocation_from_vcl_is_made_ready() {
    let made = made(None);
    match made.invoke(true, "{\"k\": \"ü\"}") {
        Ok(request) => {
            assert_eq!(request.function_name, "my-lambda");
            assert_eq!(request.payload, "{\"k\": \"ü\"}".as_bytes());
            assert_eq!(request.client, 9);
            assert_eq!(request.timeout_secs, 30);
        }
        Err(error) => panic!("{}", error.message()),
    }
    match made.invoke(false, "{}") {
        Ok(_) => panic!("expected an error"),
        Err(error) => assert_eq!(error.message(), "VMOD not initialized"),
    }
}

fn reply(payload: Option<&[u8]>, function_error: Option<&str>) -> Result<String, String> {
    let response = InvokeResponse {
        status_code: 200,
        payload: payload.map(Bytes::copy_from_slice),
        function_error: function_error.map(String::from),
    };
    invoke_reply(Ok(response)).map_err(|error| error.message())
}

#[test]
fn an_invocation_from_vcl_returns_text() {
    assert_eq!(reply(Some("grüße".as_bytes()), None), Ok("grüße".to_string()));
    assert_eq!(reply(None, None), Ok(String::new()));
    assert_eq!(reply(Some(b"{}"), Some("Unhandled")), Err("Lambda error: Unhandled".to_string()));
    assert_eq!(
        reply(Some(b"a\xff"), None),
        Err("Invalid UTF-8 in response: invalid utf-8 sequence of 1 bytes from index 1".to_string())
    );
    assert!(matches!(
        invoke_reply(Err("down".to_string())),
        Err(InvokeError::Invocation(message)) if message == "down"
    ));
}

#[test]
fn events_start_and_stop() {
    assert_eq!(event(VclEvent::Load), RuntimeAction::Create);
    assert_eq!(event(VclEvent::Warm), RuntimeAction::Keep);
    assert_eq!(event(VclEvent::Discard), RuntimeAction::Keep);

    let probed = made(Some(probe(0, 0, 0))).be;
    assert_eq!(probed.event(VclEvent::Warm), ProbeAction::Start);
    assert_eq!(probed.event(VclEvent::Cold), ProbeAction::Stop);
    assert_eq!(probed.event(VclEvent::Load), ProbeAction::Keep);
    assert_eq!(probed.event(VclEvent::Discard), ProbeAction::Keep);

    let unprobed = made(None).be;
    assert_eq!(unprobed.event(VclEvent::Warm), ProbeAction::Keep);
    assert_eq!(unprobed.event(VclEvent::Cold), ProbeAction::Keep);
}
