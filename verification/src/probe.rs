//! Health probes: how they are set up, judged and recorded.

use crate::health::{
    covered, good_probes, healthy, initial_history, is_healthy, law_initial_history_successes,
    law_recording_counts_one_probe, probe_succeeded, recorded, successes, update_health,
    HealthUpdate,
};
use crate::invocation::InvokeResponse;
use crate::numbers::{decimal, decimal_text, signed_decimal, signed_decimal_text};
use crate::outside::{debug_option, debug_text, option_view};
use crate::request::LambdaHttpRequest;
use crate::string_map::StringMap;
use vstd::prelude::*;

verus! {

/// A span of time.
#[derive(Clone, Copy, Debug, PartialEq, Eq, Structural)]
pub struct Span {
    pub secs: u64,
    pub nanos: u32,
}

/// What a probe asks for.
pub enum ProbeRequest {
    /// A `GET` of this path
    Url(String),
    /// A request written out in full
    Text(String),
}

/// How a backend is probed.
pub struct Probe {
    /// What each probe asks for
    pub request: ProbeRequest,
    /// How long a probe may take
    pub timeout: Span,
    /// How long to wait between two probes
    pub interval: Span,
    /// The status that the definition of the probe asks for; judging a probe does not go by it
    pub exp_status: u32,
    /// How many of the newest probes count
    pub window: u32,
    /// How many of them must be good for the backend to be healthy
    pub threshold: u32,
    /// How many good probes to start with
    pub initial: u32,
}

/// Why a probe could not be set up.
pub enum ProbeError {
    /// The request of the probe could not be serialized; with the wording of what is wrong
    Serialize(String),
    /// The probe has its request written out in full
    TextRequest,
}

impl ProbeError {
    /// The message of the error.
    pub open spec fn text(&self) -> Seq<char> {
        match self {
            ProbeError::Serialize(error) => "Failed to serialize probe request: "@ + error@,
            ProbeError::TextRequest =>
                "Text-based probe requests (.request) are not yet supported. Use .url instead"@,
        }
    }

    /// The message of the error.
    pub fn message(&self) -> (message: String)
        ensures
            message@ == self.text(),
    {
        match self {
            ProbeError::Serialize(error) => "Failed to serialize probe request: ".to_owned().concat(
                error.as_str(),
            ),
            ProbeError::TextRequest =>
                "Text-based probe requests (.request) are not yet supported. Use .url instead".to_owned(),
        }
    }
}

impl Span {
    /// No time at all.
    pub open spec fn zero(self) -> bool {
        self.secs == 0 && self.nanos == 0
    }

    /// A span of whole seconds.
    pub open spec fn seconds(secs: u64) -> Span {
        Span { secs, nanos: 0 }
    }

    /// Whether the span is no time at all.
    pub fn is_zero(&self) -> (zero: bool)
        ensures
            zero == self.zero(),
    {
        self.secs == 0 && self.nanos == 0
    }
}

/// How many good probes a probe starts with: as many as asked for, but no more than make the
/// backend healthy; where nothing is asked for, one less than that.
pub open spec fn sanitized_initial(initial: u32, threshold: u32) -> u32 {
    if initial == 0 {
        (threshold - 1) as u32
    } else if initial <= threshold {
        initial
    } else {
        threshold
    }
}

/// A probe with defaults in place of what it leaves open.
pub open spec fn sanitized(probe: Probe) -> Probe {
    let threshold = if probe.threshold == 0 {
        3
    } else {
        probe.threshold
    };
    Probe {
        timeout: if probe.timeout.zero() {
            Span::seconds(2)
        } else {
            probe.timeout
        },
        interval: if probe.interval.zero() {
            Span::seconds(5)
        } else {
            probe.interval
        },
        window: if probe.window == 0 {
            8
        } else {
            probe.window
        },
        threshold,
        initial: sanitized_initial(probe.initial, threshold),
        ..probe
    }
}

/// Puts defaults in place of what a probe leaves open.
pub fn sanitize(probe: Probe) -> (result: Probe)
    ensures
        result == sanitized(probe),
{
    let mut probe = probe;
    if probe.timeout.is_zero() {
        probe.timeout = Span { secs: 2, nanos: 0 };
    }
    if probe.interval.is_zero() {
        probe.interval = Span { secs: 5, nanos: 0 };
    }
    if probe.window == 0 {
        probe.window = 8;
    }
    if probe.threshold == 0 {
        probe.threshold = 3;
    }
    if probe.initial == 0 {
        probe.initial = probe.threshold - 1;
    }
    if probe.initial > probe.threshold {
        probe.initial = probe.threshold;
    }
    probe
}

/// Probe state for health checking
pub struct ProbeState {
    /// How the backend is probed
    pub spec: Probe,
    /// The outcomes of the newest probes
    pub history: u64,
    /// When the probing was set up, as the time since the Unix epoch; it is shown as the time at which
    /// the health last changed
    pub health_changed: Span,
    /// What each probe asks for
    pub request: LambdaHttpRequest,
}

/// Whether a state is the one that the probing of a path with `probe` starts from: the probe with
/// its defaults, no history yet, and a plain `GET` of the path.
pub open spec fn is_built_state(probe: Probe, path: Seq<char>, now: Span, state: ProbeState) -> bool {
    &&& state.spec == sanitized(probe)
    &&& state.history == 0
    &&& state.health_changed == now
    &&& state.request.http_method@ == "GET"@
    &&& state.request.path@ == path
    &&& state.request.query_string_parameters.wf()
    &&& state.request.query_string_parameters@.is_empty()
    &&& state.request.headers.wf()
    &&& state.request.headers@.is_empty()
    &&& state.request.body@.len() == 0
    &&& !state.request.is_base64_encoded
}

/// Sets up the probing of a backend at the time `now`.
pub fn build_probe_state(probe: Probe, now: Span) -> (result: Result<ProbeState, ProbeError>)
    ensures
        match (probe.request, result) {
            (ProbeRequest::Url(url), Ok(state)) => is_built_state(probe, url@, now, state),
            (ProbeRequest::Text(_), Err(ProbeError::TextRequest)) => true,
            _ => false,
        },
{
    let probe = sanitize(probe);
    let path = match &probe.request {
        ProbeRequest::Url(url) => url.clone(),
        ProbeRequest::Text(_) => return Err(ProbeError::TextRequest),
    };
    // Construct a GET request to the specified URL path
    let request = LambdaHttpRequest {
        http_method: "GET".to_owned(),
        path,
        query_string_parameters: StringMap::new(),
        headers: StringMap::new(),
        body: String::new(),
        is_base64_encoded: false,
    };
    Ok(ProbeState { spec: probe, history: 0, health_changed: now, request })
}

/// Whether the result of an invocation makes a good probe: the service answered with status 200,
/// and the function reported no error.
pub open spec fn good_result(result: Result<InvokeResponse, String>) -> bool {
    result matches Ok(response) && response.function_error is None && response.status_code == 200
}

/// What is said about the result of a probe.
pub open spec fn result_text(result: Result<InvokeResponse, String>) -> Seq<char> {
    match result {
        Err(error) => "Error: "@ + error@,
        Ok(response) => if good_result(result) {
            "Success: status "@ + signed_decimal(response.status_code as int)
        } else {
            "Error: status "@ + signed_decimal(response.status_code as int) + ", function_error: "@
                + debug_text(option_view(response.function_error))
        },
    }
}

/// The outcome of a probe, and what is said about it.
pub struct ProbeOutcome {
    pub good: bool,
    pub message: String,
}

/// Judges the result of a probe's invocation.
pub fn judge_probe(result: &Result<InvokeResponse, String>) -> (outcome: ProbeOutcome)
    ensures
        outcome.good == good_result(*result),
        outcome.message@ == result_text(*result),
        match *result {
            Ok(response) => outcome.good <==> response.status_code == 200
                && response.function_error is None,
            Err(_) => !outcome.good,
        },
{
    match result {
        Err(error) => ProbeOutcome {
            good: false,
            message: "Error: ".to_owned().concat(error.as_str()),
        },
        Ok(response) => {
            let status = signed_decimal_text(response.status_code);
            if response.function_error.is_none() && response.status_code == 200 {
                ProbeOutcome {
                    good: true,
                    message: "Success: status ".to_owned().concat(status.as_str()),
                }
            } else {
                ProbeOutcome {
                    good: false,
                    message: "Error: status ".to_owned().concat(status.as_str()).concat(
                        ", function_error: ",
                    ).concat(debug_option(&response.function_error).as_str()),
                }
            }
        },
    }
}

/// The name of a state of health.
pub open spec fn health_name(healthy: bool) -> Seq<char> {
    if healthy {
        "healthy"@
    } else {
        "sick"@
    }
}

/// The name of a state of health.
pub fn health_text(healthy: bool) -> (text: String)
    ensures
        text@ == health_name(healthy),
{
    if healthy {
        "healthy".to_owned()
    } else {
        "sick".to_owned()
    }
}

/// The line that a probe leaves in the log: the backend, whether its health changed, its health, the
/// backend again, the good probes, the threshold, the window, how long the probe took, the average
/// of the good ones, and what is said about the result.
pub open spec fn log_text(
    name: Seq<char>,
    before: u64,
    after: u64,
    probe: Probe,
    time: Seq<char>,
    average: Seq<char>,
    message: Seq<char>,
) -> Seq<char> {
    let was = healthy(before, probe.window, probe.threshold);
    let is = healthy(after, probe.window, probe.threshold);
    name + " "@ + (if was == is {
        "Still"@
    } else {
        "Went"@
    }) + " "@ + health_name(is) + " "@ + name + " "@ + decimal(
        successes(after, covered(probe.window)),
    ) + " "@ + decimal(probe.threshold as nat) + " "@ + decimal(probe.window as nat) + " "@ + time
        + " "@ + average + " "@ + message
}

impl ProbeState {
    /// Starts the history with as many good probes as the probe asks for.
    pub fn start(&mut self)
        ensures
            final(self).spec == old(self).spec,
            final(self).health_changed == old(self).health_changed,
            final(self).request == old(self).request,
            forall|age: nat|
                age < 64 ==> (#[trigger] probe_succeeded(final(self).history, age) <==> age < old(
                    self,
                ).spec.initial),
    {
        self.history = initial_history(self.spec.initial);
    }

    /// Enters the outcome of a probe into the history.
    pub fn record(&mut self, good: bool) -> (update: HealthUpdate)
        ensures
            *final(self) == (ProbeState { history: recorded(old(self).history, good), ..*old(self)
            }),
            update.bitmap == final(self).history,
            update.is_healthy == healthy(
                final(self).history,
                old(self).spec.window,
                old(self).spec.threshold,
            ),
            update.health_unchanged == (healthy(
                old(self).history,
                old(self).spec.window,
                old(self).spec.threshold,
            ) == update.is_healthy),
    {
        let update = update_health(self.history, self.spec.threshold, self.spec.window, good);
        self.history = update.bitmap;
        update
    }

    /// Enters the outcome of a probe into the history and writes the line for the log. The times are
    /// at hand as they are to be printed.
    pub fn record_and_log(&mut self, name: &str, outcome: &ProbeOutcome, time: &str, average: &str)
        -> (line: String)
        ensures
            *final(self) == (ProbeState {
                history: recorded(old(self).history, outcome.good),
                ..*old(self)
            }),
            line@ == log_text(
                name@,
                old(self).history,
                final(self).history,
                old(self).spec,
                time@,
                average@,
                outcome.message@,
            ),
    {
        let update = self.record(outcome.good);
        let change = if update.health_unchanged {
            "Still"
        } else {
            "Went"
        };
        let health = health_text(update.is_healthy);
        let good = decimal_text(good_probes(update.bitmap, self.spec.window) as u64);
        let threshold = decimal_text(self.spec.threshold as u64);
        let window = decimal_text(self.spec.window as u64);
        name.to_owned().concat(" ").concat(change).concat(" ").concat(health.as_str()).concat(
            " ",
        ).concat(name).concat(" ").concat(good.as_str()).concat(" ").concat(
            threshold.as_str(),
        ).concat(" ").concat(window.as_str()).concat(" ").concat(time).concat(" ").concat(
            average,
        ).concat(" ").concat(outcome.message.as_str())
    }

    /// Whether the backend is healthy by the history.
    pub fn is_healthy(&self) -> (result: bool)
        ensures
            result == healthy(self.history, self.spec.window, self.spec.threshold),
    {
        is_healthy(self.history, self.spec.window, self.spec.threshold)
    }
}

/// A sanitized probe leaves nothing open: it has a timeout, an interval, a window and a threshold,
/// and it starts with no more good probes than make the backend healthy. Sanitizing it again
/// changes nothing.
pub proof fn law_sanitized_probe_is_complete(probe: Probe)
    ensures
        !sanitized(probe).timeout.zero(),
        !sanitized(probe).interval.zero(),
        sanitized(probe).window > 0,
        sanitized(probe).threshold > 0,
        sanitized(probe).initial <= sanitized(probe).threshold,
        sanitized(sanitized(probe)) == sanitized(probe),
{
}

/// A probe that does not say what to start with starts sick, and its first good probe makes the
/// backend healthy.
pub proof fn law_first_good_probe_makes_healthy(probe: Probe, history: u64)
    requires
        probe.initial == 0,
        sanitized(probe).threshold <= sanitized(probe).window <= 64,
        forall|age: nat|
            age < 64 ==> (#[trigger] probe_succeeded(history, age) <==> age < sanitized(
                probe,
            ).initial),
    ensures
        !healthy(history, sanitized(probe).window, sanitized(probe).threshold),
        healthy(recorded(history, true), sanitized(probe).window, sanitized(probe).threshold),
{
    let spec = sanitized(probe);
    law_initial_history_successes(history, spec.initial, spec.window as nat);
    law_initial_history_successes(history, spec.initial, (spec.window - 1) as nat);
    law_recording_counts_one_probe(history, true, (spec.window - 1) as nat);
}

/// What a probe says stands, and what it leaves open gets its default: two seconds to answer, five
/// seconds between probes, a window of eight, a threshold of three. It starts with as many good
/// probes as it says, but no more than the threshold; where it says nothing, with one less than the
/// threshold.
pub proof fn law_defaults_fill_what_is_left_open(probe: Probe)
    ensures
        ({
            let filled = sanitized(probe);
            &&& filled.request == probe.request
            &&& filled.exp_status == probe.exp_status
            &&& probe.timeout.secs != 0 || probe.timeout.nanos != 0 ==> filled.timeout
                == probe.timeout
            &&& probe.timeout.secs == 0 && probe.timeout.nanos == 0 ==> filled.timeout.secs == 2
                && filled.timeout.nanos == 0
            &&& probe.interval.secs != 0 || probe.interval.nanos != 0 ==> filled.interval
                == probe.interval
            &&& probe.interval.secs == 0 && probe.interval.nanos == 0 ==> filled.interval.secs == 5
                && filled.interval.nanos == 0
            &&& probe.window != 0 ==> filled.window == probe.window
            &&& probe.window == 0 ==> filled.window == 8
            &&& probe.threshold != 0 ==> filled.threshold == probe.threshold
            &&& probe.threshold == 0 ==> filled.threshold == 3
            &&& probe.initial == 0 ==> filled.initial == filled.threshold - 1
            &&& probe.initial != 0 && probe.initial <= filled.threshold ==> filled.initial
                == probe.initial
            &&& probe.initial > filled.threshold ==> filled.initial == filled.threshold
        }),
{
}

/// A probe of a path asks for that path with a plain `GET`, and starts without a history.
pub proof fn law_probe_asks_for_its_path(
    probe: Probe,
    path: Seq<char>,
    now: Span,
    state: ProbeState,
)
    requires
        is_built_state(probe, path, now, state),
    ensures
        state.request.http_method@ == "GET"@,
        state.request.path@ == path,
        state.request.query_string_parameters@.is_empty(),
        state.request.headers@.is_empty(),
        state.request.body@.len() == 0,
        !state.request.is_base64_encoded,
        state.history == 0,
        state.health_changed == now,
        state.spec == sanitized(probe),
{
}

/// The message of a probe that cannot be set up says why.
pub proof fn law_messages_carry_probe_errors(wording: String)
    ensures
        ProbeError::Serialize(wording).text() == "Failed to serialize probe request: "@ + wording@,
        ProbeError::TextRequest.text()
            == "Text-based probe requests (.request) are not yet supported. Use .url instead"@,
{
}

/// A span of whole seconds has so many seconds and nothing more, and is no time at all exactly if there
/// are none.
pub proof fn law_seconds_make_span(secs: u64)
    ensures
        Span::seconds(secs).secs == secs,
        Span::seconds(secs).nanos == 0,
        Span::seconds(secs).zero() <==> secs == 0,
{
}

} // verus!
