//! A backend request from beginning to end: which step follows on what came of the last one.
//!
//! The outside performs an action and reports what came of it as an event; the event leads to the
//! next action, until a response has been delivered or there is an error to fail with.

use crate::base64_format::{base64_fits, Decoded};
use crate::fetch::{
    health_of, is_invocation, is_raw_response, stats_after_admission, stats_after_invocation,
    stats_after_serialization, stats_with_response, success_status, window_fits, BackendResponse,
    FetchError, Fetched, VCLBackend,
};
use crate::http_response::{is_raw_error, json_body, LambdaHttpResponse, ResponseError};
use crate::invocation::{failure_of, Failure, InvokeRequest, InvokeResponse};
use crate::outside::{content, option_view};
use crate::request::{build_request, is_prepared, slice_view, LambdaHttpRequest, PreparedRequest};
use crate::stats::LambdaBackendStats;
use crate::string_map::{wire_length, wrapped};
use bytes::Bytes;
use vstd::prelude::*;

verus! {

/// How far a backend request has come.
#[derive(Clone, Copy, Debug, PartialEq, Eq, Structural)]
pub enum Stage {
    /// It has come in
    Arrived,
    /// It has been let in
    LetIn,
    /// The request to the function is ready; with the header bytes and the body bytes to count
    Prepared { header_bytes: u64, body_bytes: u64 },
    /// The function is being invoked
    Invoking,
    /// What the function returned is being read as JSON
    Decoding,
    /// The response is being handed on
    Delivering,
    /// The response has been handed on, or there is an error
    Over,
}

/// What the outside reports.
pub enum FetchEvent<'a> {
    /// The backend request is to be served
    Begun,
    /// The backend request has been read: its method and URL, where it has them, its header fields,
    /// and what collecting its body returned and gave
    Collected {
        method: Option<&'a [u8]>,
        url: Option<&'a [u8]>,
        fields: &'a Vec<(String, Vec<u8>)>,
        body_result: isize,
        body: &'a [u8],
    },
    /// The request to the function has been serialized, or could not be
    Serialized(Result<Vec<u8>, String>),
    /// The invocation has ended
    Invoked { elapsed_ms: u64, result: Result<InvokeResponse, String> },
    /// What the function returned has been read as JSON, or could not be
    Decoded(Result<LambdaHttpResponse, String>),
    /// The response has been handed on, or could not be; with the message of what is wrong
    Delivered(Result<(), String>),
}

/// What the outside is to do.
pub enum FetchAction<C> {
    /// Read the backend request
    Collect,
    /// Serialize the request to the function
    Serialize(LambdaHttpRequest),
    /// Invoke the function
    Invoke(InvokeRequest<C>),
    /// Read what the function returned as JSON
    Decode(Bytes),
    /// Hand the response on
    Deliver(BackendResponse),
    /// Nothing more: the backend request has been served
    Finish,
    /// Fail the backend request
    Fail(FetchError),
    /// Nothing: the event does not belong to the stage
    Ignore,
}

impl Stage {
    /// How many steps lie behind.
    pub open spec fn rank(self) -> nat {
        match self {
            Stage::Arrived => 0,
            Stage::LetIn => 1,
            Stage::Prepared { .. } => 2,
            Stage::Invoking => 3,
            Stage::Decoding => 4,
            Stage::Delivering => 5,
            Stage::Over => 6,
        }
    }

    /// How many invocations are under way for the request.
    pub open spec fn under_way(self) -> u64 {
        if self is Invoking {
            1
        } else {
            0
        }
    }

    /// Whether an event belongs to the stage.
    pub open spec fn expects(self, event: FetchEvent<'_>) -> bool {
        match self {
            Stage::Arrived => event is Begun,
            Stage::LetIn => event is Collected,
            Stage::Prepared { .. } => event is Serialized,
            Stage::Invoking => event is Invoked,
            Stage::Decoding => event is Decoded,
            Stage::Delivering => event is Delivered,
            Stage::Over => false,
        }
    }
}

/// What follows on the arrival of a request: it is let in, or turned away where the backend is sick.
pub open spec fn follows_arrival<C>(
    before: VCLBackend<C>,
    after: VCLBackend<C>,
    next: Stage,
    action: FetchAction<C>,
) -> bool {
    &&& after.stats == stats_after_admission(before.stats, before.probe_state)
    &&& if health_of(before.probe_state).0 {
        next == Stage::LetIn && action is Collect
    } else {
        next == Stage::Over && action == FetchAction::<C>::Fail(FetchError::Unhealthy)
    }
}

/// What follows on a request that has been read: the request to the function, ready to be
/// serialized.
pub open spec fn follows_collection<C>(
    before: VCLBackend<C>,
    method: Option<&[u8]>,
    url: Option<&[u8]>,
    fields: Vec<(String, Vec<u8>)>,
    body_result: isize,
    body: &[u8],
    after: VCLBackend<C>,
    next: Stage,
    action: FetchAction<C>,
) -> bool {
    &&& after.stats == before.stats
    &&& action is Serialize
    &&& next is Prepared
    &&& is_prepared(
        PreparedRequest {
            request: action->Serialize_0,
            header_bytes: next->header_bytes,
            body_bytes: next->body_bytes,
        },
        slice_view(method),
        slice_view(url),
        fields@,
        body_result as int,
        body@,
    )
}

/// What follows on a serialized request: the invocation of the function, or the failure to
/// serialize.
pub open spec fn follows_serialization<C: Clone>(
    before: VCLBackend<C>,
    header_bytes: u64,
    body_bytes: u64,
    payload: Result<Vec<u8>, String>,
    after: VCLBackend<C>,
    next: Stage,
    action: FetchAction<C>,
) -> bool {
    &&& after.stats == stats_after_serialization(
        before.stats,
        payload is Ok,
        header_bytes,
        body_bytes,
    )
    &&& match payload {
        Ok(bytes) => {
            &&& next == Stage::Invoking
            &&& action is Invoke
            &&& is_invocation(action->Invoke_0, before, bytes@, before.timeout_secs)
        },
        Err(error) => {
            &&& next == Stage::Over
            &&& action == FetchAction::<C>::Fail(FetchError::Serialize(error))
        },
    }
}

/// What follows on the end of an invocation: a response, a payload to be read as JSON, or the error
/// that there is.
pub open spec fn follows_invocation<C>(
    before: VCLBackend<C>,
    elapsed_ms: u64,
    result: Result<InvokeResponse, String>,
    after: VCLBackend<C>,
    next: Stage,
    action: FetchAction<C>,
) -> bool {
    let looked_at = stats_after_invocation(before.stats.with_invocation_ended(elapsed_ms), result);
    match result {
        Err(message) => {
            &&& next == Stage::Over
            &&& action == FetchAction::<C>::Fail(FetchError::Invocation(message))
            &&& after.stats == looked_at
        },
        Ok(response) => match (response.function_error, response.payload) {
            (Some(error), _) => {
                &&& next == Stage::Over
                &&& action == FetchAction::<C>::Fail(FetchError::Function(error))
                &&& after.stats == looked_at
            },
            (None, None) => {
                &&& next == Stage::Over
                &&& action == FetchAction::<C>::Fail(FetchError::EmptyResponse)
                &&& after.stats == looked_at
            },
            (None, Some(payload)) => if before.raw_response_mode {
                match action {
                    FetchAction::Deliver(read) => {
                        &&& next == Stage::Delivering
                        &&& is_raw_response(content(payload), read)
                        &&& after.stats == stats_with_response(looked_at, read)
                    },
                    FetchAction::Fail(FetchError::Response(error)) => {
                        &&& next == Stage::Over
                        &&& is_raw_error(content(payload), error)
                        &&& after.stats == looked_at.with_failure()
                    },
                    _ => false,
                }
            } else {
                &&& next == Stage::Decoding
                &&& action == FetchAction::<C>::Decode(payload)
                &&& after.stats == looked_at
            },
        },
    }
}

/// What follows on a payload that was read as JSON: the response, or the error that there is.
pub open spec fn follows_decoding<C>(
    before: VCLBackend<C>,
    json: Result<LambdaHttpResponse, String>,
    after: VCLBackend<C>,
    next: Stage,
    action: FetchAction<C>,
) -> bool {
    match (json, action) {
        (Ok(json), FetchAction::Deliver(response)) => {
            &&& next == Stage::Delivering
            &&& response.status == json.status_code
            &&& response.headers == json.headers
            &&& response.headers.wf()
            &&& response.body.payload is Some
            &&& json_body(option_view(json.body), json.is_base64_encoded) == Decoded::Ok(
                response.body.bytes(),
            )
            &&& response.body.cursor == 0
            &&& after.stats == stats_with_response(before.stats, response)
        },
        (Ok(json), FetchAction::Fail(FetchError::Response(ResponseError::Base64(error)))) => {
            &&& next == Stage::Over
            &&& json_body(option_view(json.body), json.is_base64_encoded) == Decoded::Err(error@)
            &&& after.stats == before.stats.with_failure()
        },
        (Err(error), FetchAction::Fail(FetchError::Response(ResponseError::Json(returned)))) => {
            &&& next == Stage::Over
            &&& returned == error
            &&& after.stats == before.stats.with_failure()
        },
        _ => false,
    }
}

/// What follows on the delivery of a response: the end, or the failure to deliver.
pub open spec fn follows_delivery<C>(
    before: VCLBackend<C>,
    delivered: Result<(), String>,
    after: VCLBackend<C>,
    next: Stage,
    action: FetchAction<C>,
) -> bool {
    &&& next == Stage::Over
    &&& match delivered {
        Ok(_) => {
            &&& action is Finish
            &&& after.stats == before.stats
        },
        Err(message) => {
            &&& action == FetchAction::<C>::Fail(FetchError::Delivery(message))
            &&& after.stats == before.stats.with_failure()
        },
    }
}

/// What follows on an event.
pub open spec fn follows<C: Clone>(
    before: VCLBackend<C>,
    stage: Stage,
    event: FetchEvent<'_>,
    after: VCLBackend<C>,
    next: Stage,
    action: FetchAction<C>,
) -> bool {
    match (stage, event) {
        (Stage::Arrived, FetchEvent::Begun) => follows_arrival(before, after, next, action),
        (
            Stage::LetIn,
            FetchEvent::Collected { method, url, fields, body_result, body },
        ) => follows_collection(
            before,
            method,
            url,
            *fields,
            body_result,
            body,
            after,
            next,
            action,
        ),
        (
            Stage::Prepared { header_bytes, body_bytes },
            FetchEvent::Serialized(payload),
        ) => follows_serialization(
            before,
            header_bytes,
            body_bytes,
            payload,
            after,
            next,
            action,
        ),
        (Stage::Invoking, FetchEvent::Invoked { elapsed_ms, result }) => follows_invocation(
            before,
            elapsed_ms,
            result,
            after,
            next,
            action,
        ),
        (Stage::Decoding, FetchEvent::Decoded(json)) => follows_decoding(
            before,
            json,
            after,
            next,
            action,
        ),
        (Stage::Delivering, FetchEvent::Delivered(delivered)) => follows_delivery(
            before,
            delivered,
            after,
            next,
            action,
        ),
        _ => {
            &&& after == before
            &&& next == stage
            &&& action is Ignore
        },
    }
}

impl<C: Clone> VCLBackend<C> {
    /// Takes a backend request on from a stage by what the outside reports. An event that does not
    /// belong to the stage changes nothing.
    pub fn get_response(&mut self, stage: Stage, event: FetchEvent<'_>) -> (step: (
        Stage,
        FetchAction<C>,
    ))
        requires
            window_fits(old(self).probe_state),
            event is Collected ==> base64_fits(event->body@.len()),
        ensures
            final(self).same_but_stats(*old(self)),
            follows(*old(self), stage, event, *final(self), step.0, step.1),
            stage.expects(event) ==> step.0.rank() > stage.rank() && !(step.1 is Ignore),
            !stage.expects(event) ==> *final(self) == *old(self) && step.0 == stage
                && step.1 is Ignore,
            stage.expects(event) ==> (step.0 is Over <==> step.1 is Finish || step.1 is Fail),
            stage.expects(event) && step.1 is Fail ==> final(self).stats.fail == old(
                self,
            ).stats.fail.wrapping_add(1),
            final(self).stats.inflight.wrapping_sub(step.0.under_way()) == old(
                self,
            ).stats.inflight.wrapping_sub(stage.under_way()),
    {
        match (stage, event) {
            (Stage::Arrived, FetchEvent::Begun) => match self.let_in() {
                Ok(_) => (Stage::LetIn, FetchAction::Collect),
                Err(error) => (Stage::Over, FetchAction::Fail(error)),
            },
            (Stage::LetIn, FetchEvent::Collected { method, url, fields, body_result, body }) => {
                let prepared = build_request(method, url, fields, body_result, body);
                (
                    Stage::Prepared {
                        header_bytes: prepared.header_bytes,
                        body_bytes: prepared.body_bytes,
                    },
                    FetchAction::Serialize(prepared.request),
                )
            },
            (
                Stage::Prepared { header_bytes, body_bytes },
                FetchEvent::Serialized(payload),
            ) => match self.begin_invocation(payload, header_bytes, body_bytes) {
                Ok(request) => (Stage::Invoking, FetchAction::Invoke(request)),
                Err(error) => (Stage::Over, FetchAction::Fail(error)),
            },
            (Stage::Invoking, FetchEvent::Invoked { elapsed_ms, result }) => match self.finish_fetch(
                elapsed_ms,
                result,
            ) {
                Ok(Fetched::Response(response)) => (
                    Stage::Delivering,
                    FetchAction::Deliver(response),
                ),
                Ok(Fetched::Json(payload)) => (Stage::Decoding, FetchAction::Decode(payload)),
                Err(error) => (Stage::Over, FetchAction::Fail(error)),
            },
            (Stage::Decoding, FetchEvent::Decoded(json)) => match self.receive_json(json) {
                Ok(response) => (Stage::Delivering, FetchAction::Deliver(response)),
                Err(error) => (Stage::Over, FetchAction::Fail(error)),
            },
            (Stage::Delivering, FetchEvent::Delivered(delivered)) => match self.end_delivery(
                delivered,
            ) {
                Ok(_) => (Stage::Over, FetchAction::Finish),
                Err(error) => (Stage::Over, FetchAction::Fail(error)),
            },
            _ => (stage, FetchAction::Ignore),
        }
    }
}

/// One step of a backend request: the backend, the stage and the event before it, and the backend,
/// the stage and the action after it.
pub struct Step<'a, C> {
    pub before: VCLBackend<C>,
    pub stage: Stage,
    pub event: FetchEvent<'a>,
    pub after: VCLBackend<C>,
    pub next: Stage,
    pub action: FetchAction<C>,
}

impl<'a, C: Clone> Step<'a, C> {
    /// Whether the step can be taken.
    pub open spec fn taken(self) -> bool {
        &&& self.stage.expects(self.event)
        &&& self.after.same_but_stats(self.before)
        &&& follows(self.before, self.stage, self.event, self.after, self.next, self.action)
    }
}

/// Whether steps take a backend request from its arrival on, each from where the last one led.
pub open spec fn is_course<C: Clone>(steps: Seq<Step<'_, C>>) -> bool {
    &&& steps.len() > 0
    &&& steps[0].stage is Arrived
    &&& forall|i: int| 0 <= i < steps.len() ==> (#[trigger] steps[i]).taken()
    &&& forall|i: int|
        0 < i < steps.len() ==> (#[trigger] steps[i]).stage == steps[i - 1].next && steps[i].before
            == steps[i - 1].after
}

/// One for yes, zero for no.
pub open spec fn one_if(condition: bool) -> u64 {
    if condition {
        1
    } else {
        0
    }
}

/// The header bytes and the body bytes that steps send.
pub open spec fn sent<C>(steps: Seq<Step<'_, C>>) -> (u64, u64)
    decreases steps.len(),
{
    if steps.len() == 0 {
        (0, 0)
    } else if steps.last().next is Invoking {
        (steps.last().stage->header_bytes, steps.last().stage->body_bytes)
    } else {
        sent(steps.drop_last())
    }
}

/// The time that an invocation is reported to have taken in the course of steps.
pub open spec fn time_taken<C>(steps: Seq<Step<'_, C>>) -> u64
    decreases steps.len(),
{
    if steps.len() == 0 {
        0
    } else {
        match steps.last().event {
            FetchEvent::Invoked { elapsed_ms, .. } => elapsed_ms,
            _ => time_taken(steps.drop_last()),
        }
    }
}

/// The response that steps come to, if they do.
pub open spec fn response_of<C>(steps: Seq<Step<'_, C>>) -> Option<BackendResponse>
    decreases steps.len(),
{
    if steps.len() == 0 {
        None
    } else {
        match steps.last().action {
            FetchAction::Deliver(response) => Some(response),
            _ => response_of(steps.drop_last()),
        }
    }
}

/// Whether the counters of responses have moved as a response calls for: by its bytes, and by a
/// function error where its status is not one of success.
pub open spec fn response_counted(
    start: LambdaBackendStats,
    now: LambdaBackendStats,
    response: BackendResponse,
) -> bool {
    &&& now.function_error == start.function_error.wrapping_add(
        one_if(!success_status(response.status)),
    )
    &&& now.beresp_hdrbytes == start.beresp_hdrbytes.wrapping_add(
        wrapped(wire_length(response.headers.pairs())),
    )
    &&& now.beresp_bodybytes == start.beresp_bodybytes.wrapping_add(
        wrapped(response.body.bytes().len()),
    )
}

/// Whether the counters of failures have moved as the last action calls for: an error counts as a
/// failure, whatever it is, and a failed invocation as a timeout or as throttled by its message.
/// Anything else counts as none of these.
pub open spec fn failure_counted<C>(
    start: LambdaBackendStats,
    now: LambdaBackendStats,
    action: FetchAction<C>,
) -> bool {
    let failure = match action {
        FetchAction::Fail(FetchError::Invocation(message)) => failure_of(message@),
        _ => Failure::Other,
    };
    &&& now.fail == start.fail.wrapping_add(one_if(action is Fail))
    &&& now.timeout == start.timeout.wrapping_add(one_if(failure == Failure::Timeout))
    &&& now.throttled == start.throttled.wrapping_add(one_if(failure == Failure::Throttled))
}

/// Whether an action is to fail with an error of the function.
pub open spec fn is_function_error<C>(action: FetchAction<C>) -> bool {
    action matches FetchAction::Fail(FetchError::Function(_))
}

/// However a backend request goes, it is counted once, and at every stage as many invocations are
/// counted as under way as there are, so that none is when the request is over. What is sent is
/// counted when the invocation begins, its time when it ends, and the response when there is one.
/// A request counts as failed if it ends in an error, whatever the error is, and only then. The
/// gauge of health shows the history of the probe.
#[verifier::spinoff_prover]
pub proof fn law_every_request_is_accounted_for<C: Clone>(steps: Seq<Step<'_, C>>)
    requires
        is_course(steps),
    ensures
        ({
            let start = steps[0].before.stats;
            let now = steps.last().after.stats;
            let stage = steps.last().next;
            let action = steps.last().action;
            &&& now.req == start.req.wrapping_add(1)
            &&& now.happy == health_of(steps[0].before.probe_state).1
            &&& now.inflight == start.inflight.wrapping_add(stage.under_way())
            &&& now.bereq_hdrbytes == start.bereq_hdrbytes.wrapping_add(sent(steps).0)
            &&& now.bereq_bodybytes == start.bereq_bodybytes.wrapping_add(sent(steps).1)
            &&& now.invoke_time_ms == start.invoke_time_ms.wrapping_add(time_taken(steps))
            &&& failure_counted(start, now, action)
            &&& match response_of(steps) {
                Some(response) => response_counted(start, now, response),
                None => {
                    &&& now.function_error == start.function_error.wrapping_add(
                        one_if(is_function_error(action)),
                    )
                    &&& now.beresp_hdrbytes == start.beresp_hdrbytes
                    &&& now.beresp_bodybytes == start.beresp_bodybytes
                }
            }
            &&& stage is Over <==> action is Finish || action is Fail
            &&& stage is Delivering ==> response_of(steps) is Some
            &&& stage.rank() < 5 ==> response_of(steps) is None
            &&& stage.rank() < 3 ==> sent(steps) == (0u64, 0u64)
            &&& stage.rank() < 4 ==> time_taken(steps) == 0
            &&& steps.last().after.same_but_stats(steps[0].before)
            &&& !(stage is Arrived)
            &&& stage.rank() >= steps.len()
        }),
    decreases steps.len(),
{
    let last = steps[steps.len() - 1];
    assert(last.taken());
    let earlier = steps.drop_last();
    if steps.len() > 1 {
        assert(steps[steps.len() - 1].stage == steps[steps.len() - 2].next);
        assert forall|i: int| 0 <= i < earlier.len() implies (#[trigger] earlier[i]).taken() by {
            assert(steps[i].taken());
        }
        assert forall|i: int| 0 < i < earlier.len() implies (#[trigger] earlier[i]).stage
            == earlier[i - 1].next && earlier[i].before == earlier[i - 1].after by {
            assert(steps[i].stage == steps[i - 1].next && steps[i].before == steps[i - 1].after);
        }
        law_every_request_is_accounted_for(earlier);
        assert(earlier.last() == steps[steps.len() - 2]);
        assert(earlier[0] == steps[0]);
    } else {
        reveal_with_fuel(sent, 2);
        reveal_with_fuel(time_taken, 2);
        reveal_with_fuel(response_of, 2);
        assert(earlier.len() == 0);
    }
}

} // verus!
