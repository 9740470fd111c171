//! What a backend request comes to at each step, and what is kept throughout.

use crate::exchange::{follows, FetchAction, FetchEvent, Stage};
use crate::fetch::{is_invocation, FetchError, VCLBackend};
use crate::http_response::ResponseError;
use crate::invocation::{InvokeRequest, InvokeResponse};
use crate::numbers::law_only_numbers_are_read;
use crate::outside::{content, utf8_error_text};
use crate::request::{is_prepared, PreparedRequest};
use crate::text::{law_line_feeds_end_lines, law_white_space_parts_words, lines, white_space};
use vstd::prelude::*;
use vstd::utf8::{encode_utf8, encode_utf8_decode_utf8, encode_utf8_valid_utf8, valid_utf8};

verus! {

/// A step of a backend request changes nothing of the backend but its counters.
pub proof fn law_steps_keep_backend<C>(before: VCLBackend<C>, after: VCLBackend<C>)
    requires
        after.same_but_stats(before),
    ensures
        after.name == before.name,
        after.function_name == before.function_name,
        after.client == before.client,
        after.timeout_secs == before.timeout_secs,
        after.probe_state == before.probe_state,
        after.raw_response_mode == before.raw_response_mode,
{
}

/// An invocation of a backend is one of its function, through its client, with the payload and the
/// time to answer that are given.
pub proof fn law_invocation_is_of_backend<C: Clone>(
    request: InvokeRequest<C>,
    backend: VCLBackend<C>,
    payload: Seq<u8>,
    timeout_secs: u64,
)
    requires
        is_invocation(request, backend, payload, timeout_secs),
    ensures
        request.function_name@ == backend.function_name@,
        request.payload@ == payload,
        cloned(backend.client, request.client),
        request.timeout_secs == timeout_secs,
{
}

/// A backend request that has been read is made ready for the function from its method, its URL, its
/// header fields and its body, and the bytes to count are kept with the stage. Nothing counts yet.
pub proof fn law_collected_request_is_made_ready<C: Clone>(
    before: VCLBackend<C>,
    method: Option<&[u8]>,
    url: Option<&[u8]>,
    fields: &Vec<(String, Vec<u8>)>,
    body_result: isize,
    body: &[u8],
    after: VCLBackend<C>,
    next: Stage,
    action: FetchAction<C>,
)
    requires
        follows(
            before,
            Stage::LetIn,
            FetchEvent::Collected { method, url, fields, body_result, body },
            after,
            next,
            action,
        ),
    ensures
        after.stats == before.stats,
        next is Prepared,
        action is Serialize,
        ({
            let ready = PreparedRequest {
                request: action->Serialize_0,
                header_bytes: next->header_bytes,
                body_bytes: next->body_bytes,
            };
            let method_bytes = match method {
                Some(bytes) => Some(bytes@),
                None => None,
            };
            let url_bytes = match url {
                Some(bytes) => Some(bytes@),
                None => None,
            };
            is_prepared(ready, method_bytes, url_bytes, fields@, body_result as int, body@)
        }),
{
}

/// A serialized request is sent to the function of the backend, with as many seconds to answer as
/// the backend has. What is sent counts, and one invocation more is under way.
pub proof fn law_serialized_request_is_sent<C: Clone>(
    before: VCLBackend<C>,
    header_bytes: u64,
    body_bytes: u64,
    payload: Vec<u8>,
    after: VCLBackend<C>,
    next: Stage,
    action: FetchAction<C>,
)
    requires
        follows(
            before,
            Stage::Prepared { header_bytes, body_bytes },
            FetchEvent::Serialized(Ok(payload)),
            after,
            next,
            action,
        ),
    ensures
        next == Stage::Invoking,
        action is Invoke,
        action->Invoke_0.function_name@ == before.function_name@,
        action->Invoke_0.payload@ == payload@,
        action->Invoke_0.timeout_secs == before.timeout_secs,
        cloned(before.client, action->Invoke_0.client),
        after.stats.bereq_hdrbytes == before.stats.bereq_hdrbytes.wrapping_add(header_bytes),
        after.stats.bereq_bodybytes == before.stats.bereq_bodybytes.wrapping_add(body_bytes),
        after.stats.inflight == before.stats.inflight.wrapping_add(1),
        after.stats.fail == before.stats.fail,
        after.stats.req == before.stats.req,
{
}

/// A request that cannot be serialized fails with the wording of what is wrong: nothing counts as
/// sent, and no invocation is under way for it.
pub proof fn law_unserialized_request_is_not_sent<C: Clone>(
    before: VCLBackend<C>,
    header_bytes: u64,
    body_bytes: u64,
    error: String,
    after: VCLBackend<C>,
    next: Stage,
    action: FetchAction<C>,
)
    requires
        follows(
            before,
            Stage::Prepared { header_bytes, body_bytes },
            FetchEvent::Serialized(Err(error)),
            after,
            next,
            action,
        ),
    ensures
        next == Stage::Over,
        action == FetchAction::<C>::Fail(FetchError::Serialize(error)),
        after.stats.bereq_hdrbytes == before.stats.bereq_hdrbytes,
        after.stats.bereq_bodybytes == before.stats.bereq_bodybytes,
        after.stats.inflight == before.stats.inflight,
        after.stats.fail == before.stats.fail.wrapping_add(1),
{
}

/// An answer that cannot be read as JSON fails the request with the wording of what is wrong.
pub proof fn law_unreadable_answer_fails<C: Clone>(
    before: VCLBackend<C>,
    error: String,
    after: VCLBackend<C>,
    next: Stage,
    action: FetchAction<C>,
)
    requires
        follows(before, Stage::Decoding, FetchEvent::Decoded(Err(error)), after, next, action),
    ensures
        next == Stage::Over,
        action == FetchAction::<C>::Fail(FetchError::Response(ResponseError::Json(error))),
        after.stats.fail == before.stats.fail.wrapping_add(1),
        after.stats.function_error == before.stats.function_error,
        after.stats.beresp_bodybytes == before.stats.beresp_bodybytes,
{
}

/// A response that was handed on ends the request and counts no more; one that could not be handed on
/// fails it with the message of what is wrong.
pub proof fn law_delivery_ends_request<C: Clone>(
    before: VCLBackend<C>,
    delivered: Result<(), String>,
    after: VCLBackend<C>,
    next: Stage,
    action: FetchAction<C>,
)
    requires
        follows(before, Stage::Delivering, FetchEvent::Delivered(delivered), after, next, action),
    ensures
        next == Stage::Over,
        delivered is Ok ==> action is Finish && after.stats == before.stats,
        delivered is Err ==> action == FetchAction::<C>::Fail(
            FetchError::Delivery(delivered->Err_0),
        ) && after.stats.fail == before.stats.fail.wrapping_add(1),
{
}

/// A raw answer that is not UTF-8 fails the request with the wording of what is wrong, and an empty
/// one fails it as such.
pub proof fn law_answer_without_text_fails<C: Clone>(
    before: VCLBackend<C>,
    elapsed_ms: u64,
    response: InvokeResponse,
    after: VCLBackend<C>,
    next: Stage,
    action: FetchAction<C>,
)
    requires
        before.raw_response_mode,
        response.function_error is None,
        response.payload is Some,
        content(response.payload->0).len() == 0 || !valid_utf8(content(response.payload->0)),
        follows(
            before,
            Stage::Invoking,
            FetchEvent::Invoked { elapsed_ms, result: Ok(response) },
            after,
            next,
            action,
        ),
    ensures
        next == Stage::Over,
        ({
            let bytes = content(response.payload->0);
            &&& bytes.len() == 0 ==> action == FetchAction::<C>::Fail(
                FetchError::Response(ResponseError::EmptyHttpResponse),
            )
            &&& bytes.len() > 0 ==> {
                &&& action is Fail
                &&& action->Fail_0 is Response
                &&& action->Fail_0->Response_0 is InvalidUtf8
                &&& action->Fail_0->Response_0->InvalidUtf8_0@ == utf8_error_text(bytes)
            }
        }),
        after.stats.fail == before.stats.fail.wrapping_add(1),
        after.stats.function_error == before.stats.function_error,
{
    let bytes = content(response.payload->0);
    if bytes.len() == 0 {
        let empty = Seq::<char>::empty();
        assert(encode_utf8(empty).len() == 0);
        assert(bytes == encode_utf8(empty));
        encode_utf8_valid_utf8(empty);
        encode_utf8_decode_utf8(empty);
    }
}

/// A raw answer fails the request with its first line where the second word of that line is missing or
/// holds anything but digits and a plus before them.
pub proof fn law_answer_without_status_fails<C: Clone>(
    before: VCLBackend<C>,
    elapsed_ms: u64,
    response: InvokeResponse,
    after: VCLBackend<C>,
    next: Stage,
    action: FetchAction<C>,
    first: Seq<char>,
    between: Seq<char>,
    second: Seq<char>,
    back: Seq<char>,
    at: int,
    rest: Seq<char>,
)
    requires
        before.raw_response_mode,
        response.function_error is None,
        response.payload is Some,
        content(response.payload->0) == encode_utf8(
            first + between + second + back + seq!['\r', '\n'] + rest,
        ),
        first.len() > 0,
        forall|i: int| 0 <= i < first.len() ==> !white_space(#[trigger] first[i]),
        second.len() > 0 ==> between.len() > 0,
        forall|i: int|
            0 <= i < between.len() ==> white_space(#[trigger] between[i]) && between[i] != '\n',
        forall|i: int| 0 <= i < second.len() ==> !white_space(#[trigger] second[i]),
        second.len() == 0 ==> back.len() == 0,
        back.len() > 0 ==> white_space(back[0]),
        forall|i: int| 0 <= i < back.len() ==> back[i] != '\n',
        second.len() > 0 ==> 0 <= at < second.len() && !('0' <= second[at] <= '9') && (at > 0
            || second[at] != '+'),
        follows(
            before,
            Stage::Invoking,
            FetchEvent::Invoked { elapsed_ms, result: Ok(response) },
            after,
            next,
            action,
        ),
    ensures
        next == Stage::Over,
        action is Fail,
        action->Fail_0 is Response,
        action->Fail_0->Response_0 is InvalidStatusLine,
        action->Fail_0->Response_0->InvalidStatusLine_0@ == first + between + second + back,
        after.stats.fail == before.stats.fail.wrapping_add(1),
        after.stats.function_error == before.stats.function_error,
{
    let line = first + between + second + back;
    let text = line + seq!['\r', '\n'] + rest;
    encode_utf8_valid_utf8(text);
    encode_utf8_decode_utf8(text);
    assert forall|i: int| 0 <= i < line.len() implies line[i] != '\n' by {
        let in_second = i - first.len() - between.len();
        if i < first.len() {
            assert(!white_space(first[i]));
        } else if in_second < 0 {
            assert(between[i - first.len()] != '\n');
        } else if in_second < second.len() {
            assert(!white_space(second[in_second]));
        } else {
            assert(line[i] == back[in_second - second.len()]);
        }
    }
    law_line_feeds_end_lines(line, rest);
    assert((seq![line] + lines(rest))[0] == line);
    let none = Seq::<char>::empty();
    assert(none + first + between + second + back == line);
    law_white_space_parts_words(none, first, between, second, back);
    law_only_numbers_are_read(second, at);
}

/// Each event belongs to one stage; at any other stage it changes nothing.
pub proof fn law_stray_event_changes_nothing<C: Clone>(
    before: VCLBackend<C>,
    stage: Stage,
    event: FetchEvent<'_>,
    after: VCLBackend<C>,
    next: Stage,
    action: FetchAction<C>,
)
    requires
        follows(before, stage, event, after, next, action),
        event is Begun ==> !(stage is Arrived),
        event is Collected ==> !(stage is LetIn),
        event is Serialized ==> !(stage is Prepared),
        event is Invoked ==> !(stage is Invoking),
        event is Decoded ==> !(stage is Decoding),
        event is Delivered ==> !(stage is Delivering),
    ensures
        after == before,
        next == stage,
        action is Ignore,
        !stage.expects(event),
{
}

} // verus!
