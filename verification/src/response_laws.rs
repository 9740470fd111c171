//! What of a function's answer reaches the client.

use crate::base64_format::{base64_text, is_base64, law_base64_is_read_back};
use crate::exchange::{follows, FetchAction, FetchEvent, Stage};
use crate::fetch::{FetchError, VCLBackend};
use crate::framing::{
    framed, header_lines, law_written_response_is_read_back, lemma_status_of_status_line,
    on_one_line, status_line, writable,
};
use crate::headers::{
    all_ascii_lowered, ascii_lowered, ascii_named, law_field_is_found_in_any_case,
};
use crate::http_response::{
    first_blank, header_field, header_fields, raw_body, raw_lines, LambdaHttpResponse,
    ResponseError,
};
use crate::invocation::InvokeResponse;
use crate::outside::{ascii_lowercase, content};
use crate::string_map::{lemma_to_map, Pair};
use crate::text::{
    law_line_feeds_end_lines, lemma_first_index_unique, lines, trimmed, white_space,
};
use vstd::prelude::*;
use vstd::utf8::{encode_utf8, encode_utf8_decode_utf8, encode_utf8_valid_utf8, valid_utf8};

verus! {

/// What a function answers as a raw HTTP response is delivered: the status code, each header field
/// under its name in lower case, if no later field has its name, no header that is not among them, and
/// the body, byte for byte.
pub proof fn law_raw_response_is_delivered<C: Clone>(
    before: VCLBackend<C>,
    elapsed_ms: u64,
    response: InvokeResponse,
    after: VCLBackend<C>,
    next: Stage,
    action: FetchAction<C>,
    version: Seq<char>,
    status: u16,
    reason: Seq<char>,
    fields: Seq<Pair>,
    body: Seq<char>,
)
    requires
        before.raw_response_mode,
        response.function_error is None,
        response.payload is Some,
        content(response.payload->0) == encode_utf8(
            framed(seq![status_line(version, status, reason)] + header_lines(fields), body),
        ),
        version.len() > 0,
        forall|i: int| 0 <= i < version.len() ==> !white_space(version[i]),
        on_one_line(reason),
        forall|i: int| 0 <= i < fields.len() ==> writable(#[trigger] fields[i]),
        ascii_named(fields),
        follows(
            before,
            Stage::Invoking,
            FetchEvent::Invoked { elapsed_ms, result: Ok(response) },
            after,
            next,
            action,
        ),
    ensures
        next == Stage::Delivering,
        action is Deliver,
        action->Deliver_0.status == status,
        action->Deliver_0.body.unread() == encode_utf8(body),
        forall|at: int|
            0 <= at < fields.len() && (forall|i: int|
                at < i < fields.len() ==> ascii_lowercase((#[trigger] fields[i]).0)
                    != ascii_lowercase(fields[at].0)) ==> {
                let name = ascii_lowercase((#[trigger] fields[at]).0);
                &&& action->Deliver_0.headers@.contains_key(name)
                &&& action->Deliver_0.headers@[name] == fields[at].1
            },
        forall|name: Seq<char>| #[trigger]
            action->Deliver_0.headers@.contains_key(name) ==> exists|at: int|
                0 <= at < fields.len() && ascii_lowercase((#[trigger] fields[at]).0) == name,
{
    law_written_response_is_read_back(version, status, reason, fields, body);
    let delivered = action->Deliver_0;
    assert forall|at: int|
        0 <= at < fields.len() && (forall|i: int|
            at < i < fields.len() ==> ascii_lowercase((#[trigger] fields[i]).0) != ascii_lowercase(
                fields[at].0,
            )) implies delivered.headers@.contains_key(ascii_lowercase((#[trigger] fields[at]).0))
        && delivered.headers@[ascii_lowercase(fields[at].0)] == fields[at].1 by {
        law_field_is_found_in_any_case(fields, at);
    }
    let pairs = all_ascii_lowered(fields);
    lemma_to_map(pairs);
    assert forall|name: Seq<char>| #[trigger] delivered.headers@.contains_key(name) implies exists|
        at: int,
    |
        0 <= at < fields.len() && ascii_lowercase((#[trigger] fields[at]).0) == name by {
        let at = choose|at: int| 0 <= at < pairs.len() && #[trigger] pairs[at].0 == name;
        assert(pairs[at] == ascii_lowered(fields[at]));
    }
    assert(encode_utf8(body).skip(0) == encode_utf8(body));
}

/// The first line of a raw answer decides whether it is a response: where it is a status line, the
/// answer is delivered with its status, whatever stands behind it.
pub proof fn law_status_line_makes_response<C: Clone>(
    before: VCLBackend<C>,
    elapsed_ms: u64,
    response: InvokeResponse,
    after: VCLBackend<C>,
    next: Stage,
    action: FetchAction<C>,
    version: Seq<char>,
    status: u16,
    reason: Seq<char>,
    rest: Seq<char>,
)
    requires
        before.raw_response_mode,
        response.function_error is None,
        response.payload is Some,
        content(response.payload->0) == encode_utf8(
            status_line(version, status, reason) + seq!['\r', '\n'] + rest,
        ),
        version.len() > 0,
        forall|i: int| 0 <= i < version.len() ==> !white_space(version[i]),
        on_one_line(status_line(version, status, reason)),
        follows(
            before,
            Stage::Invoking,
            FetchEvent::Invoked { elapsed_ms, result: Ok(response) },
            after,
            next,
            action,
        ),
    ensures
        next == Stage::Delivering,
        action is Deliver,
        action->Deliver_0.status == status,
        after.stats.fail == before.stats.fail,
{
    let line = status_line(version, status, reason);
    let text = line + seq!['\r', '\n'] + rest;
    lemma_status_of_status_line(version, status, reason);
    encode_utf8_valid_utf8(text);
    encode_utf8_decode_utf8(text);
    law_line_feeds_end_lines(line, rest);
    assert((seq![line] + lines(rest))[0] == line);
    assert(text.len() > 0);
}

/// What a function answers in JSON is delivered: the status code and the headers as they are, and the
/// body that its text stands for: the bytes whose Base64 text it is where it is flagged as such, and
/// its UTF-8 otherwise. Without a body nothing is delivered of one.
pub proof fn law_json_response_is_delivered<C: Clone>(
    before: VCLBackend<C>,
    json: LambdaHttpResponse,
    after: VCLBackend<C>,
    next: Stage,
    action: FetchAction<C>,
    bytes: Seq<u8>,
)
    requires
        match json.body {
            Some(text) => if json.is_base64_encoded {
                text@ == base64_text(bytes)
            } else {
                bytes == encode_utf8(text@)
            },
            None => bytes.len() == 0,
        },
        follows(before, Stage::Decoding, FetchEvent::Decoded(Ok(json)), after, next, action),
    ensures
        next == Stage::Delivering,
        action is Deliver,
        action->Deliver_0.status == json.status_code,
        action->Deliver_0.headers@ == json.headers@,
        action->Deliver_0.body.unread() == bytes,
{
    if json.body is Some && json.is_base64_encoded {
        law_base64_is_read_back(encode_utf8(json.body->0@), bytes);
    }
    if json.body is None {
        assert(bytes == Seq::<u8>::empty());
    }
    assert(bytes.skip(0) == bytes);
}

/// A body that is flagged as Base64 and is not fails the request; a failure is counted.
pub proof fn law_body_that_is_no_base64_fails<C: Clone>(
    before: VCLBackend<C>,
    json: LambdaHttpResponse,
    after: VCLBackend<C>,
    next: Stage,
    action: FetchAction<C>,
)
    requires
        json.body is Some,
        json.is_base64_encoded,
        !is_base64(encode_utf8(json.body->0@)),
        follows(before, Stage::Decoding, FetchEvent::Decoded(Ok(json)), after, next, action),
    ensures
        next == Stage::Over,
        action is Fail,
        after.stats.fail == before.stats.fail.wrapping_add(1),
{
}

/// What comes of an invocation: a failed one fails the request with its message; an error of the
/// function fails it, whatever the function returned besides; so does an answer without a payload.
/// Any other answer is read as the backend says.
pub proof fn law_invocation_decides<C: Clone>(
    before: VCLBackend<C>,
    elapsed_ms: u64,
    result: Result<InvokeResponse, String>,
    after: VCLBackend<C>,
    next: Stage,
    action: FetchAction<C>,
)
    requires
        follows(
            before,
            Stage::Invoking,
            FetchEvent::Invoked { elapsed_ms, result },
            after,
            next,
            action,
        ),
    ensures
        result is Err ==> action == FetchAction::<C>::Fail(FetchError::Invocation(result->Err_0)),
        result is Ok && result->Ok_0.function_error is Some ==> action == FetchAction::<C>::Fail(
            FetchError::Function(result->Ok_0.function_error->0),
        ),
        result is Ok && result->Ok_0.function_error is None && result->Ok_0.payload is None
            ==> action == FetchAction::<C>::Fail(FetchError::EmptyResponse),
        result is Ok && result->Ok_0.function_error is None && result->Ok_0.payload is Some
            && !before.raw_response_mode ==> action == FetchAction::<C>::Decode(
            result->Ok_0.payload->0,
        ),
        result is Ok && result->Ok_0.function_error is None && result->Ok_0.payload is Some
            && before.raw_response_mode && !valid_utf8(content(result->Ok_0.payload->0))
            ==> action is Fail,
        action is Fail ==> after.stats.fail == before.stats.fail.wrapping_add(1) && next
            == Stage::Over,
        after.stats.inflight == before.stats.inflight.wrapping_sub(1),
        after.stats.invoke_time_ms == before.stats.invoke_time_ms.wrapping_add(elapsed_ms),
{
}

/// Where no line behind the first is empty, the body of a raw response is all of it.
pub proof fn law_body_without_empty_line_is_payload(payload: Seq<u8>)
    requires
        payload.len() > 0,
        forall|i: int|
            1 <= i < raw_lines(payload).len() ==> (#[trigger] raw_lines(payload)[i]).len() > 0,
    ensures
        raw_body(payload) == payload,
{
    lemma_no_blank(raw_lines(payload), 1);
    assert(payload.skip(0) == payload);
}

/// Where no line is empty, no empty line is found.
proof fn lemma_no_blank(lines: Seq<Seq<char>>, from: nat)
    requires
        forall|i: int| from <= i < lines.len() ==> (#[trigger] lines[i]).len() > 0,
    ensures
        first_blank(lines, from) == lines.len(),
    decreases lines.len() - from,
{
    if from < lines.len() {
        assert(lines[from as int].len() > 0);
        lemma_no_blank(lines, from + 1);
    }
}

/// A line with a colon is a header field: what stands before its first colon and what stands behind
/// it, without the white space around them. A line without a colon is none.
pub proof fn law_colon_parts_header_field(name: Seq<char>, value: Seq<char>)
    requires
        forall|i: int| 0 <= i < name.len() ==> name[i] != ':',
    ensures
        header_field(name + seq![':'] + value) == Some((trimmed(name), trimmed(value))),
        header_field(name) is None,
{
    let line = name + seq![':'] + value;
    assert forall|i: int| 0 <= i < name.len() implies line[i] != ':' by {
        assert(line[i] == name[i]);
    }
    lemma_first_index_unique(line, ':', name.len());
    lemma_first_index_unique(name, ':', name.len());
    assert(line.take(name.len() as int) == name);
    assert(line.skip(name.len() as int + 1) == value);
}

/// Lines without a colon play no part among header lines.
pub proof fn law_lines_without_colon_are_skipped(
    front: Seq<Seq<char>>,
    line: Seq<char>,
    back: Seq<Seq<char>>,
)
    requires
        forall|i: int| 0 <= i < line.len() ==> line[i] != ':',
    ensures
        header_fields(front + seq![line] + back) == header_fields(front + back),
    decreases back.len(),
{
    lemma_first_index_unique(line, ':', line.len());
    if back.len() == 0 {
        assert((front + seq![line] + back).drop_last() == front);
        assert((front + seq![line] + back).last() == line);
        assert(front + back == front);
    } else {
        law_lines_without_colon_are_skipped(front, line, back.drop_last());
        assert((front + seq![line] + back).drop_last() == front + seq![line] + back.drop_last());
        assert((front + back).drop_last() == front + back.drop_last());
        assert((front + seq![line] + back).last() == back.last());
        assert((front + back).last() == back.last());
    }
}

/// The message of every error of a backend request says what it is and carries what is known of it.
pub proof fn law_messages_carry_errors(wording: String)
    ensures
        FetchError::Unhealthy.text() == "unhealthy"@,
        FetchError::Serialize(wording).text() == "Failed to serialize request: "@ + wording@,
        FetchError::Invocation(wording).text() == wording@,
        FetchError::Function(wording).text() == "Lambda error: "@ + wording@,
        FetchError::EmptyResponse.text() == "Empty Lambda response"@,
        FetchError::Delivery(wording).text() == wording@,
        FetchError::Response(ResponseError::InvalidUtf8(wording)).text()
            == "Invalid UTF-8 in raw HTTP response: "@ + wording@,
        FetchError::Response(ResponseError::EmptyHttpResponse).text() == "Empty HTTP response"@,
        FetchError::Response(ResponseError::InvalidStatusLine(wording)).text()
            == "Invalid HTTP status line: "@ + wording@,
        FetchError::Response(ResponseError::Json(wording)).text()
            == "Failed to parse Lambda JSON response: "@ + wording@,
        FetchError::Response(ResponseError::Base64(wording)).text()
            == "Failed to decode base64 body: "@ + wording@,
{
}

} // verus!
