//! Fetching a response from a Lambda function: the steps of a backend request between the calls to
//! the outside, and what each step counts.

use crate::base64_format::Decoded;
use crate::body::BackendResp;
use crate::framing::{header_lines, law_fields_count_as_written, with_line_endings};
use crate::health::healthy;
use crate::http_response::{
    are_raw_headers, is_raw_error, json_body, parse_json_response, parse_raw_http_response, raw_body,
    raw_status, LambdaHttpResponse, ResponseError,
};
use crate::invocation::{
    classify_failure, failure_of, Failure, InvokeRequest, InvokeResponse,
};
use crate::listing::{list_probed, list_unprobed, probed_text, unprobed_text};
use crate::outside::{bytes_as_slice, bytes_from_vec, content, option_view};
use crate::probe::{ProbeState, Span};
use crate::stats::LambdaBackendStats;
use crate::string_map::{wire_length, wrapped, StringMap};
use bytes::Bytes;
use vstd::prelude::*;
use vstd::utf8::{encode_utf8, valid_utf8};

verus! {

/// Why a backend request failed.
pub enum FetchError {
    /// The backend is sick
    Unhealthy,
    /// The request could not be serialized; with the wording of what is wrong
    Serialize(String),
    /// The invocation failed; with its message
    Invocation(String),
    /// The function reported an error
    Function(String),
    /// The function returned nothing
    EmptyResponse,
    /// What the function returned is no response
    Response(ResponseError),
    /// The response could not be handed on; with the message of what is wrong
    Delivery(String),
}

impl FetchError {
    /// The message of the error.
    pub open spec fn text(&self) -> Seq<char> {
        match self {
            FetchError::Unhealthy => "unhealthy"@,
            FetchError::Serialize(error) => "Failed to serialize request: "@ + error@,
            FetchError::Invocation(message) => message@,
            FetchError::Function(error) => "Lambda error: "@ + error@,
            FetchError::EmptyResponse => "Empty Lambda response"@,
            FetchError::Response(error) => error.text(),
            FetchError::Delivery(message) => message@,
        }
    }

    /// The message of the error.
    pub fn message(&self) -> (message: String)
        ensures
            message@ == self.text(),
    {
        match self {
            FetchError::Unhealthy => "unhealthy".to_owned(),
            FetchError::Serialize(error) => "Failed to serialize request: ".to_owned().concat(
                error.as_str(),
            ),
            FetchError::Invocation(message) => message.clone(),
            FetchError::Function(error) => "Lambda error: ".to_owned().concat(error.as_str()),
            FetchError::EmptyResponse => "Empty Lambda response".to_owned(),
            FetchError::Response(error) => error.message(),
            FetchError::Delivery(message) => message.clone(),
        }
    }
}

/// VCL Backend implementation for Lambda
///
/// `C` is the client that invocations are made with.
pub struct VCLBackend<C> {
    pub name: String,
    pub function_name: String,
    pub client: C,
    pub timeout_secs: u64,
    pub probe_state: Option<ProbeState>,
    pub raw_response_mode: bool,
    pub stats: LambdaBackendStats,
}

/// What a function returned, by how it is to be read.
pub enum Payload {
    /// A raw HTTP response
    Raw(Bytes),
    /// A response in JSON
    Json(Bytes),
}

/// What a backend request has come to.
pub enum Fetched {
    /// A response
    Response(BackendResponse),
    /// A payload in JSON, which is to be handed to `VCLBackend::receive_json`
    Json(Bytes),
}

/// A response as the cache takes it.
pub struct BackendResponse {
    pub status: u16,
    pub headers: StringMap,
    pub body: BackendResp,
}

/// The health that a probe state stands for, and the history that shows it: without a probe, a
/// backend is healthy and all its probes count as good.
pub open spec fn health_of(probe_state: Option<ProbeState>) -> (bool, u64) {
    match probe_state {
        Some(state) => (
            healthy(state.history, state.spec.window, state.spec.threshold),
            state.history,
        ),
        None => (true, u64::MAX),
    }
}

/// Whether the window of a probe fits into its history.
pub open spec fn window_fits(probe_state: Option<ProbeState>) -> bool {
    probe_state is Some ==> probe_state->0.spec.window <= 64
}

/// The counters after a request has been let in or turned away.
pub open spec fn stats_after_admission(
    stats: LambdaBackendStats,
    probe_state: Option<ProbeState>,
) -> LambdaBackendStats {
    let (ok, bitmap) = health_of(probe_state);
    let counted = stats.with_request().with_history(bitmap);
    if ok {
        counted
    } else {
        counted.with_failure()
    }
}

/// The counters after a request has been made ready to be sent, or could not be.
pub open spec fn stats_after_serialization(
    stats: LambdaBackendStats,
    serialized: bool,
    header_bytes: u64,
    body_bytes: u64,
) -> LambdaBackendStats {
    if serialized {
        stats.with_sent(header_bytes, body_bytes).with_invocation_begun()
    } else {
        stats.with_failure()
    }
}

/// The counters after the result of an invocation has been looked at.
pub open spec fn stats_after_invocation(
    stats: LambdaBackendStats,
    result: Result<InvokeResponse, String>,
) -> LambdaBackendStats {
    match result {
        Err(message) => match failure_of(message@) {
            Failure::Timeout => stats.with_timeout().with_failure(),
            Failure::Throttled => stats.with_throttling().with_failure(),
            Failure::Other => stats.with_failure(),
        },
        Ok(response) => if response.function_error is Some {
            stats.with_function_error().with_failure()
        } else if response.payload is None {
            stats.with_failure()
        } else {
            stats
        },
    }
}

/// Whether a status code stands for success.
pub open spec fn success_status(status: u16) -> bool {
    200 <= status < 300
}

/// The counters after a response has been handed on.
pub open spec fn stats_after_delivery(
    stats: LambdaBackendStats,
    status: u16,
    header_bytes: nat,
    body_bytes: nat,
) -> LambdaBackendStats {
    let received = stats.with_received(wrapped(header_bytes), wrapped(body_bytes));
    if success_status(status) {
        received
    } else {
        received.with_function_error()
    }
}

/// The counters after this response has been handed on.
pub open spec fn stats_with_response(
    stats: LambdaBackendStats,
    response: BackendResponse,
) -> LambdaBackendStats {
    stats_after_delivery(
        stats,
        response.status,
        wire_length(response.headers.pairs()),
        response.body.bytes().len(),
    )
}

/// Whether a response is the one that a raw HTTP response holds, with none of its body read yet.
pub open spec fn is_raw_response(payload: Seq<u8>, response: BackendResponse) -> bool {
    &&& valid_utf8(payload)
    &&& payload.len() > 0
    &&& raw_status(payload) == Some(response.status)
    &&& response.headers.wf()
    &&& are_raw_headers(payload, response.headers@)
    &&& response.body.payload is Some
    &&& response.body.bytes() == raw_body(payload)
    &&& response.body.cursor == 0
}

impl<C> VCLBackend<C> {
    /// Whether nothing but the counters differs.
    pub open spec fn same_but_stats(self, other: VCLBackend<C>) -> bool {
        self == (VCLBackend { stats: self.stats, ..other })
    }

    /// Whether the backend is healthy, and the time to show with it, as the time since the Unix epoch:
    /// that at which its probing was set up, or the epoch where it has no probe. The gauge of health
    /// shows the probe history.
    pub fn healthy(&mut self) -> (result: (bool, Span))
        requires
            window_fits(old(self).probe_state),
        ensures
            final(self).same_but_stats(*old(self)),
            final(self).stats == old(self).stats.with_history(health_of(old(self).probe_state).1),
            result.0 == health_of(old(self).probe_state).0,
            result.1 == match old(self).probe_state {
                Some(state) => state.health_changed,
                None => Span::seconds(0),
            },
    {
        match &self.probe_state {
            Some(state) => {
                self.stats.happy = state.history;
                (state.is_healthy(), state.health_changed)
            },
            None => {
                // No probe: always healthy, update gauge
                self.stats.happy = u64::MAX;
                (true, Span { secs: 0, nanos: 0 })
            },
        }
    }

    /// Counts a request, and turns it away where the backend is sick.
    pub fn let_in(&mut self) -> (result: Result<(), FetchError>)
        requires
            window_fits(old(self).probe_state),
        ensures
            final(self).same_but_stats(*old(self)),
            final(self).stats == stats_after_admission(old(self).stats, old(self).probe_state),
            match result {
                Ok(_) => health_of(old(self).probe_state).0,
                Err(FetchError::Unhealthy) => !health_of(old(self).probe_state).0,
                Err(_) => false,
            },
    {
        self.stats.req = self.stats.req.wrapping_add(1);
        if self.healthy().0 {
            Ok(())
        } else {
            self.stats.fail = self.stats.fail.wrapping_add(1);
            Err(FetchError::Unhealthy)
        }
    }

    /// Looks at the result of an invocation that took `elapsed_ms` milliseconds: what the function
    /// returned, by how it is to be read, or why there is nothing.
    pub fn end_invocation(
        &mut self,
        elapsed_ms: u64,
        result: Result<InvokeResponse, String>,
    ) -> (payload: Result<Payload, FetchError>)
        ensures
            final(self).same_but_stats(*old(self)),
            final(self).stats == stats_after_invocation(
                old(self).stats.with_invocation_ended(elapsed_ms),
                result,
            ),
            match (result, payload) {
                (Err(message), Err(FetchError::Invocation(returned))) => returned == message,
                (Ok(response), Err(FetchError::Function(error))) => response.function_error
                    == Some(error),
                (Ok(response), Err(FetchError::EmptyResponse)) => {
                    &&& response.function_error is None
                    &&& response.payload is None
                },
                (Ok(response), Ok(Payload::Raw(bytes))) => {
                    &&& response.function_error is None
                    &&& response.payload == Some(bytes)
                    &&& old(self).raw_response_mode
                },
                (Ok(response), Ok(Payload::Json(bytes))) => {
                    &&& response.function_error is None
                    &&& response.payload == Some(bytes)
                    &&& !old(self).raw_response_mode
                },
                _ => false,
            },
    {
        self.stats.invocation_finished(elapsed_ms);
        let response = match result {
            Ok(response) => response,
            Err(message) => {
                match classify_failure(message.as_str()) {
                    Failure::Timeout => {
                        self.stats.timeout = self.stats.timeout.wrapping_add(1);
                    },
                    Failure::Throttled => {
                        self.stats.throttled = self.stats.throttled.wrapping_add(1);
                    },
                    Failure::Other => {},
                }
                self.stats.fail = self.stats.fail.wrapping_add(1);
                return Err(FetchError::Invocation(message));
            },
        };
        if let Some(error) = response.function_error {
            self.stats.function_error = self.stats.function_error.wrapping_add(1);
            self.stats.fail = self.stats.fail.wrapping_add(1);
            return Err(FetchError::Function(error));
        }
        match response.payload {
            Some(bytes) => if self.raw_response_mode {
                Ok(Payload::Raw(bytes))
            } else {
                Ok(Payload::Json(bytes))
            },
            None => {
                self.stats.fail = self.stats.fail.wrapping_add(1);
                Err(FetchError::EmptyResponse)
            },
        }
    }

    /// Hands a response on, and counts it.
    pub fn deliver(&mut self, status: u16, headers: StringMap, body: Vec<u8>) -> (response:
        BackendResponse)
        ensures
            final(self).same_but_stats(*old(self)),
            final(self).stats == stats_after_delivery(
                old(self).stats,
                status,
                wire_length(headers.pairs()),
                body@.len(),
            ),
            response.status == status,
            response.headers == headers,
            response.headers.wf(),
            response.body.payload is Some,
            response.body.bytes() == body@,
            response.body.cursor == 0,
    {
        proof {
            use_type_invariant(&headers);
        }
        // Track function errors based on status code
        if !(200 <= status && status < 300) {
            self.stats.function_error = self.stats.function_error.wrapping_add(1);
        }
        let header_bytes: u64 = headers.wire_bytes();
        let body_bytes: u64 = body.len() as u64;
        self.stats.beresp_hdrbytes = self.stats.beresp_hdrbytes.wrapping_add(header_bytes);
        self.stats.beresp_bodybytes = self.stats.beresp_bodybytes.wrapping_add(body_bytes);
        BackendResponse {
            status,
            headers,
            body: BackendResp { payload: Some(bytes_from_vec(body)), cursor: 0 },
        }
    }

    /// Reads a raw HTTP response, hands it on and counts it. What is no response counts as a failure.
    pub fn receive_raw(&mut self, payload: &Bytes) -> (result: Result<BackendResponse, FetchError>)
        ensures
            final(self).same_but_stats(*old(self)),
            match result {
                Ok(response) => {
                    &&& is_raw_response(content(*payload), response)
                    &&& final(self).stats == stats_with_response(old(self).stats, response)
                },
                Err(FetchError::Response(error)) => {
                    &&& is_raw_error(content(*payload), error)
                    &&& final(self).stats == old(self).stats.with_failure()
                },
                Err(_) => false,
            },
    {
        match parse_raw_http_response(bytes_as_slice(payload)) {
            Ok((status, headers, body)) => Ok(self.deliver(status, headers, body)),
            Err(error) => {
                self.stats.fail = self.stats.fail.wrapping_add(1);
                Err(FetchError::Response(error))
            },
        }
    }

    /// Takes a response in JSON, or the wording of why it could not be read, hands it on and counts
    /// it. What is no response counts as a failure.
    pub fn receive_json(&mut self, json: Result<LambdaHttpResponse, String>) -> (result: Result<
        BackendResponse,
        FetchError,
    >)
        ensures
            final(self).same_but_stats(*old(self)),
            match (json, result) {
                (Ok(json), Ok(response)) => {
                    &&& response.status == json.status_code
                    &&& response.headers == json.headers
                    &&& response.headers.wf()
                    &&& response.body.payload is Some
                    &&& json_body(option_view(json.body), json.is_base64_encoded) == Decoded::Ok(
                        response.body.bytes(),
                    )
                    &&& response.body.cursor == 0
                    &&& final(self).stats == stats_with_response(old(self).stats, response)
                },
                (Ok(json), Err(FetchError::Response(ResponseError::Base64(error)))) => {
                    &&& json_body(option_view(json.body), json.is_base64_encoded) == Decoded::Err(
                        error@,
                    )
                    &&& final(self).stats == old(self).stats.with_failure()
                },
                (Err(error), Err(FetchError::Response(ResponseError::Json(returned)))) => {
                    &&& returned == error
                    &&& final(self).stats == old(self).stats.with_failure()
                },
                _ => false,
            },
    {
        match parse_json_response(json) {
            Ok((status, headers, body)) => Ok(self.deliver(status, headers, body)),
            Err(error) => {
                self.stats.fail = self.stats.fail.wrapping_add(1);
                Err(FetchError::Response(error))
            },
        }
    }

    /// Looks at the result of an invocation that took `elapsed_ms` milliseconds, and reads what the
    /// function returned where that is a raw HTTP response.
    pub fn finish_fetch(&mut self, elapsed_ms: u64, result: Result<InvokeResponse, String>) -> (fetched:
        Result<Fetched, FetchError>)
        ensures
            final(self).same_but_stats(*old(self)),
            ({
                let looked_at = stats_after_invocation(
                    old(self).stats.with_invocation_ended(elapsed_ms),
                    result,
                );
                match (result, fetched) {
                    (Err(message), Err(FetchError::Invocation(returned))) => {
                        &&& returned == message
                        &&& final(self).stats == looked_at
                    },
                    (Ok(response), Err(FetchError::Function(error))) => {
                        &&& response.function_error == Some(error)
                        &&& final(self).stats == looked_at
                    },
                    (Ok(response), Err(FetchError::EmptyResponse)) => {
                        &&& response.function_error is None
                        &&& response.payload is None
                        &&& final(self).stats == looked_at
                    },
                    (Ok(response), Err(FetchError::Response(error))) => {
                        &&& response.function_error is None
                        &&& response.payload is Some
                        &&& old(self).raw_response_mode
                        &&& is_raw_error(content(response.payload->0), error)
                        &&& final(self).stats == looked_at.with_failure()
                    },
                    (Ok(response), Ok(Fetched::Response(read))) => {
                        &&& response.function_error is None
                        &&& response.payload is Some
                        &&& old(self).raw_response_mode
                        &&& is_raw_response(content(response.payload->0), read)
                        &&& final(self).stats == stats_with_response(looked_at, read)
                    },
                    (Ok(response), Ok(Fetched::Json(bytes))) => {
                        &&& response.function_error is None
                        &&& response.payload == Some(bytes)
                        &&& !old(self).raw_response_mode
                        &&& final(self).stats == looked_at
                    },
                    _ => false,
                }
            }),
    {
        match self.end_invocation(elapsed_ms, result) {
            Ok(Payload::Raw(payload)) => match self.receive_raw(&payload) {
                Ok(response) => Ok(Fetched::Response(response)),
                Err(error) => Err(error),
            },
            Ok(Payload::Json(payload)) => Ok(Fetched::Json(payload)),
            Err(error) => Err(error),
        }
    }

    /// Ends a backend request whose response was handed on, or could not be; with the message of what
    /// is wrong. What could not be handed on counts as a failure.
    pub fn end_delivery(&mut self, delivered: Result<(), String>) -> (result: Result<(), FetchError>)
        ensures
            final(self).same_but_stats(*old(self)),
            match (delivered, result) {
                (Ok(_), Ok(_)) => final(self).stats == old(self).stats,
                (Err(message), Err(FetchError::Delivery(returned))) => {
                    &&& returned == message
                    &&& final(self).stats == old(self).stats.with_failure()
                },
                _ => false,
            },
    {
        match delivered {
            Ok(_) => Ok(()),
            Err(message) => {
                self.stats.fail = self.stats.fail.wrapping_add(1);
                Err(FetchError::Delivery(message))
            },
        }
    }

    /// What the backend shows of its health when backends are listed, given the average time of its
    /// good probes and its probe in JSON as they are to be printed.
    pub fn list(&mut self, average: &str, spec_json: &str, detailed: bool, json: bool) -> (text:
        String)
        ensures
            final(self).same_but_stats(*old(self)),
            match old(self).probe_state {
                Some(state) => {
                    &&& text@ == probed_text(state, average@, spec_json@, json, detailed)
                    &&& final(self).stats == old(self).stats
                },
                None => {
                    &&& text@ == unprobed_text(json, detailed)
                    &&& final(self).stats == old(self).stats.with_history(u64::MAX)
                },
            },
    {
        match &self.probe_state {
            Some(state) => list_probed(state, average, spec_json, json, detailed),
            None => {
                self.stats.happy = u64::MAX;
                list_unprobed(json, detailed)
            },
        }
    }
}

/// Whether an invocation is one of the function of a backend, with the client of the backend.
pub open spec fn is_invocation<C: Clone>(
    request: InvokeRequest<C>,
    backend: VCLBackend<C>,
    payload: Seq<u8>,
    timeout_secs: u64,
) -> bool {
    &&& request.function_name@ == backend.function_name@
    &&& request.payload@ == payload
    &&& cloned(backend.client, request.client)
    &&& request.timeout_secs == timeout_secs
}

impl<C: Clone> VCLBackend<C> {
    /// The invocation of the function with a payload.
    pub fn invocation(&self, payload: Vec<u8>, timeout_secs: u64) -> (request: InvokeRequest<C>)
        ensures
            is_invocation(request, *self, payload@, timeout_secs),
    {
        InvokeRequest {
            function_name: self.function_name.clone(),
            payload,
            client: self.client.clone(),
            timeout_secs,
        }
    }

    /// Makes the invocation for a request ready, given its payload or the wording of why it has
    /// none, and counts what is sent and that an invocation is under way.
    pub fn begin_invocation(
        &mut self,
        serialized: Result<Vec<u8>, String>,
        header_bytes: u64,
        body_bytes: u64,
    ) -> (result: Result<InvokeRequest<C>, FetchError>)
        ensures
            final(self).same_but_stats(*old(self)),
            final(self).stats == stats_after_serialization(
                old(self).stats,
                serialized is Ok,
                header_bytes,
                body_bytes,
            ),
            match (serialized, result) {
                (Ok(payload), Ok(request)) => is_invocation(
                    request,
                    *old(self),
                    payload@,
                    old(self).timeout_secs,
                ),
                (Err(error), Err(FetchError::Serialize(returned))) => returned == error,
                _ => false,
            },
    {
        match serialized {
            Ok(payload) => {
                self.stats.bereq_hdrbytes = self.stats.bereq_hdrbytes.wrapping_add(header_bytes);
                self.stats.bereq_bodybytes = self.stats.bereq_bodybytes.wrapping_add(body_bytes);
                self.stats.invocation_started();
                Ok(self.invocation(payload, self.timeout_secs))
            },
            Err(error) => {
                self.stats.fail = self.stats.fail.wrapping_add(1);
                Err(FetchError::Serialize(error))
            },
        }
    }

    /// The invocation that each probe makes, where there is a probe, given the payload of its
    /// request. It may take the whole seconds of the timeout of the probe.
    pub fn probe_invocation(&self, payload: Vec<u8>) -> (request: Option<InvokeRequest<C>>)
        ensures
            match (self.probe_state, request) {
                (Some(state), Some(request)) => is_invocation(
                    request,
                    *self,
                    payload@,
                    state.spec.timeout.secs,
                ),
                (None, None) => true,
                _ => false,
            },
    {
        match &self.probe_state {
            Some(state) => Some(self.invocation(payload, state.spec.timeout.secs)),
            None => None,
        }
    }
}

/// By how much each counter has moved; the gauge of health is none.
pub open spec fn moved(from: LambdaBackendStats, to: LambdaBackendStats) -> LambdaBackendStats {
    LambdaBackendStats {
        req: to.req.wrapping_sub(from.req),
        bereq_hdrbytes: to.bereq_hdrbytes.wrapping_sub(from.bereq_hdrbytes),
        bereq_bodybytes: to.bereq_bodybytes.wrapping_sub(from.bereq_bodybytes),
        beresp_hdrbytes: to.beresp_hdrbytes.wrapping_sub(from.beresp_hdrbytes),
        beresp_bodybytes: to.beresp_bodybytes.wrapping_sub(from.beresp_bodybytes),
        fail: to.fail.wrapping_sub(from.fail),
        function_error: to.function_error.wrapping_sub(from.function_error),
        timeout: to.timeout.wrapping_sub(from.timeout),
        throttled: to.throttled.wrapping_sub(from.throttled),
        inflight: to.inflight.wrapping_sub(from.inflight),
        invoke_time_ms: to.invoke_time_ms.wrapping_sub(from.invoke_time_ms),
        happy: 0,
    }
}

/// Letting a request in or turning it away moves the counters alike.
#[verifier::spinoff_prover]
proof fn lemma_admission_moves_alike(
    one: LambdaBackendStats,
    other: LambdaBackendStats,
    probe_state: Option<ProbeState>,
)
    ensures
        moved(one, stats_after_admission(one, probe_state)) == moved(
            other,
            stats_after_admission(other, probe_state),
        ),
{
}

/// Making a request ready moves the counters alike.
#[verifier::spinoff_prover]
proof fn lemma_serialization_moves_alike(
    one: LambdaBackendStats,
    other: LambdaBackendStats,
    serialized: bool,
    header_bytes: u64,
    body_bytes: u64,
)
    ensures
        moved(one, stats_after_serialization(one, serialized, header_bytes, body_bytes)) == moved(
            other,
            stats_after_serialization(other, serialized, header_bytes, body_bytes),
        ),
{
}

/// Looking at the result of an invocation moves the counters alike.
#[verifier::spinoff_prover]
proof fn lemma_invocation_moves_alike(
    one: LambdaBackendStats,
    other: LambdaBackendStats,
    elapsed_ms: u64,
    result: Result<InvokeResponse, String>,
)
    ensures
        moved(one, stats_after_invocation(one.with_invocation_ended(elapsed_ms), result)) == moved(
            other,
            stats_after_invocation(other.with_invocation_ended(elapsed_ms), result),
        ),
{
}

/// Handing a response on moves the counters alike.
#[verifier::spinoff_prover]
proof fn lemma_delivery_moves_alike(
    one: LambdaBackendStats,
    other: LambdaBackendStats,
    status: u16,
    header_bytes: nat,
    body_bytes: nat,
)
    ensures
        moved(one, stats_after_delivery(one, status, header_bytes, body_bytes)) == moved(
            other,
            stats_after_delivery(other, status, header_bytes, body_bytes),
        ),
{
}

/// A step of a backend request moves the counters by the same amounts wherever they stand.
pub proof fn law_steps_move_counters_alike(
    one: LambdaBackendStats,
    other: LambdaBackendStats,
    probe_state: Option<ProbeState>,
    serialized: bool,
    header_bytes: u64,
    body_bytes: u64,
    elapsed_ms: u64,
    result: Result<InvokeResponse, String>,
    response: BackendResponse,
)
    ensures
        moved(one, stats_after_admission(one, probe_state)) == moved(
            other,
            stats_after_admission(other, probe_state),
        ),
        moved(one, stats_after_serialization(one, serialized, header_bytes, body_bytes)) == moved(
            other,
            stats_after_serialization(other, serialized, header_bytes, body_bytes),
        ),
        moved(one, stats_after_invocation(one.with_invocation_ended(elapsed_ms), result)) == moved(
            other,
            stats_after_invocation(other.with_invocation_ended(elapsed_ms), result),
        ),
        moved(one, stats_with_response(one, response)) == moved(
            other,
            stats_with_response(other, response),
        ),
        moved(one, one.with_failure()) == moved(other, other.with_failure()),
{
    lemma_admission_moves_alike(one, other, probe_state);
    lemma_serialization_moves_alike(one, other, serialized, header_bytes, body_bytes);
    lemma_invocation_moves_alike(one, other, elapsed_ms, result);
    lemma_delivery_moves_alike(
        one,
        other,
        response.status,
        wire_length(response.headers.pairs()),
        response.body.bytes().len(),
    );
    lemma_serialization_moves_alike(one, other, false, 0, 0);
}

/// A response counts as a function error exactly if its status code is not one from 200 to 299; its
/// header bytes and its body bytes count in any case, and it counts as no failure.
pub proof fn law_status_decides_function_error(
    stats: LambdaBackendStats,
    response: BackendResponse,
)
    ensures
        ({
            let after = stats_with_response(stats, response);
            let error: u64 = if response.status < 200 || response.status >= 300 {
                1
            } else {
                0
            };
            &&& after.function_error == stats.function_error.wrapping_add(error)
            &&& after.beresp_bodybytes as int == (stats.beresp_bodybytes
                + response.body.bytes().len()) % 0x1_0000_0000_0000_0000
            &&& after.beresp_hdrbytes as int == (stats.beresp_hdrbytes + encode_utf8(
                with_line_endings(header_lines(response.headers.pairs())),
            ).len()) % 0x1_0000_0000_0000_0000
            &&& after.fail == stats.fail
            &&& after.req == stats.req
            &&& after.inflight == stats.inflight
        }),
{
    law_fields_count_as_written(response.headers.pairs());
}

} // verus!
