//! Invoking a Lambda function: what goes in, what comes back, and how a failure is worded.

use crate::numbers::{decimal, decimal_text, law_decimal_writes_value, value_of};
use crate::outside::content;
use crate::text::{contains, occurs, occurs_at};
use bytes::Bytes;
use vstd::prelude::*;

verus! {

/// How long an invocation may take where nothing else is asked for
pub const DEFAULT_LAMBDA_TIMEOUT_SECS: u64 = 62;

/// How many invocations may be under way at once
pub const MAX_CONCURRENT_INVOCATIONS: usize = 500_000;

/// Request to invoke a Lambda function
pub struct InvokeRequest<C> {
    pub function_name: String,
    pub payload: Vec<u8>,
    pub client: C,
    pub timeout_secs: u64,
}

/// Response from Lambda invocation
pub struct InvokeResponse {
    pub status_code: i32,
    pub payload: Option<Bytes>,
    pub function_error: Option<String>,
}

/// How an invocation ended.
pub enum Invocation<'a> {
    /// There was no answer in time
    TimedOut,
    /// It could not be made; with the error as it is printed for debugging
    Failed(String),
    /// The service answered
    Answered {
        status_code: i32,
        payload: Option<&'a [u8]>,
        function_error: Option<String>,
    },
}

/// The message of an invocation that was not answered in time.
pub open spec fn timed_out_text(timeout_secs: u64) -> Seq<char> {
    "Lambda invocation timed out after "@ + decimal(timeout_secs as nat) + "s"@
}

/// The message of an invocation that could not be made.
pub open spec fn failed_text(error: Seq<char>) -> Seq<char> {
    "Lambda invocation failed: "@ + error
}

/// Whether this is what is handed on of the end of an invocation: the answer, or a message.
pub open spec fn is_handed_on(
    timeout_secs: u64,
    invocation: Invocation<'_>,
    result: Result<InvokeResponse, String>,
) -> bool {
    match (invocation, result) {
        (Invocation::TimedOut, Err(message)) => message@ == timed_out_text(timeout_secs),
        (Invocation::Failed(error), Err(message)) => message@ == failed_text(error@),
        (Invocation::Answered { status_code, payload, function_error }, Ok(response)) => {
            &&& response.status_code == status_code
            &&& response.function_error == function_error
            &&& match (payload, response.payload) {
                (Some(bytes), Some(buffer)) => content(buffer) == bytes@,
                (None, None) => true,
                _ => false,
            }
        },
        _ => false,
    }
}

/// Turns the end of an invocation into a response or a message.
pub fn invocation_result(timeout_secs: u64, invocation: Invocation<'_>) -> (result: Result<
    InvokeResponse,
    String,
>)
    ensures
        is_handed_on(timeout_secs, invocation, result),
{
    match invocation {
        Invocation::TimedOut => {
            let message = "Lambda invocation timed out after ".to_owned().concat(
                decimal_text(timeout_secs).as_str(),
            ).concat("s");
            Err(message)
        },
        Invocation::Failed(error) => {
            Err("Lambda invocation failed: ".to_owned().concat(error.as_str()))
        },
        Invocation::Answered { status_code, payload, function_error } => {
            let payload = match payload {
                Some(bytes) => Some(Bytes::copy_from_slice(bytes)),
                None => None,
            };
            Ok(InvokeResponse { status_code, payload, function_error })
        },
    }
}

/// Whether the message of a failed invocation speaks of a timeout.
pub open spec fn speaks_of_timeout(message: Seq<char>) -> bool {
    occurs(message, "timeout"@) || occurs(message, "timed out"@)
}

/// Whether the message of a failed invocation speaks of throttling.
pub open spec fn speaks_of_throttling(message: Seq<char>) -> bool {
    occurs(message, "TooManyRequestsException"@) || occurs(message, "ThrottlingException"@)
}

/// What kind of failure a message stands for.
#[derive(Clone, Copy, Debug, PartialEq, Eq, Structural)]
pub enum Failure {
    Timeout,
    Throttled,
    Other,
}

/// What kind of failure a message stands for: a timeout where it speaks of one, else throttling
/// where it speaks of that.
pub open spec fn failure_of(message: Seq<char>) -> Failure {
    if speaks_of_timeout(message) {
        Failure::Timeout
    } else if speaks_of_throttling(message) {
        Failure::Throttled
    } else {
        Failure::Other
    }
}

/// Tells from the message of a failed invocation what kind of failure it was.
pub fn classify_failure(message: &str) -> (failure: Failure)
    ensures
        failure == failure_of(message@),
{
    if contains(message, "timeout") || contains(message, "timed out") {
        Failure::Timeout
    } else if contains(message, "TooManyRequestsException") || contains(
        message,
        "ThrottlingException",
    ) {
        Failure::Throttled
    } else {
        Failure::Other
    }
}

/// An invocation that is not answered in time counts as a timeout.
pub proof fn law_unanswered_invocation_is_a_timeout(timeout_secs: u64)
    ensures
        failure_of(timed_out_text(timeout_secs)) == Failure::Timeout,
{
    reveal_strlit("Lambda invocation timed out after ");
    reveal_strlit("timed out");
    let message = timed_out_text(timeout_secs);
    assert(message.subrange(18, 27) == "timed out"@);
    assert(occurs_at(message, "timed out"@, 18));
}

/// A text that stands behind another is found in both together.
proof fn lemma_occurs_behind(front: Seq<char>, s: Seq<char>, needle: Seq<char>)
    requires
        occurs(s, needle),
    ensures
        occurs(front + s, needle),
{
    let at = choose|at: int| #[trigger] occurs_at(s, needle, at);
    let shifted = front.len() + at;
    assert((front + s).subrange(shifted, shifted + needle.len()) == s.subrange(
        at,
        at + needle.len(),
    ));
    assert(occurs_at(front + s, needle, shifted));
}

/// The words before the error of a failed invocation do not speak of a timeout.
proof fn lemma_failed_text_speaks_as_its_error(error: Seq<char>, needle: Seq<char>)
    requires
        needle == "timeout"@ || needle == "timed out"@,
        occurs(failed_text(error), needle),
    ensures
        occurs(error, needle),
{
    reveal_strlit("Lambda invocation failed: ");
    reveal_strlit("timeout");
    reveal_strlit("timed out");
    let front = "Lambda invocation failed: "@;
    let message = failed_text(error);
    let at = choose|at: int| #[trigger] occurs_at(message, needle, at);
    let found = message.subrange(at, at + needle.len());
    assert(found[0] == 't' && found[2] == 'm');
    assert(message[at] == 't' && message[at + 2] == 'm');
    assert(forall|i: int| 0 <= i < front.len() && i != 13 ==> front[i] != 't');
    if at < front.len() {
        assert(message[at] == front[at]);
        assert(message[15] == front[15]);
        assert(false);
    }
    let behind = at - front.len();
    assert(error.subrange(behind, behind + needle.len()) == found);
    assert(occurs_at(error, needle, behind));
}

/// An invocation that the service throttles counts as throttled, unless its error speaks of a
/// timeout too.
pub proof fn law_throttled_invocation_is_throttled(error: Seq<char>)
    requires
        speaks_of_throttling(error),
        !speaks_of_timeout(error),
    ensures
        failure_of(failed_text(error)) == Failure::Throttled,
{
    let front = "Lambda invocation failed: "@;
    if occurs(error, "TooManyRequestsException"@) {
        lemma_occurs_behind(front, error, "TooManyRequestsException"@);
    } else {
        lemma_occurs_behind(front, error, "ThrottlingException"@);
    }
    if occurs(failed_text(error), "timeout"@) {
        lemma_failed_text_speaks_as_its_error(error, "timeout"@);
    }
    if occurs(failed_text(error), "timed out"@) {
        lemma_failed_text_speaks_as_its_error(error, "timed out"@);
    }
}

/// A message with a text in its midst.
proof fn lemma_occurs_amid(front: Seq<char>, needle: Seq<char>, back: Seq<char>)
    ensures
        occurs(front + needle + back, needle),
{
    let message = front + needle + back;
    let at = front.len() as int;
    assert(message.subrange(at, at + needle.len()) == needle);
    assert(occurs_at(message, needle, at));
}

/// A failure whose message holds `timeout` or `timed out`, wherever, is a timeout.
pub proof fn law_message_of_timeout_is_a_timeout(front: Seq<char>, back: Seq<char>)
    ensures
        failure_of(front + "timeout"@ + back) == Failure::Timeout,
        failure_of(front + "timed out"@ + back) == Failure::Timeout,
{
    lemma_occurs_amid(front, "timeout"@, back);
    lemma_occurs_amid(front, "timed out"@, back);
}

/// Whether a text is found nowhere in a message.
pub open spec fn nowhere(message: Seq<char>, needle: Seq<char>) -> bool {
    forall|at: int|
        0 <= at && at + needle.len() <= message.len() ==> #[trigger] message.subrange(
            at,
            at + needle.len(),
        ) != needle
}

/// A failure whose message holds neither `timeout` nor `timed out` is no timeout: it is throttling
/// where the message holds the name of one of the two exceptions, wherever, and something else where
/// it holds neither.
pub proof fn law_message_without_timeout_is_none(
    message: Seq<char>,
    front: Seq<char>,
    back: Seq<char>,
)
    requires
        nowhere(message, "timeout"@),
        nowhere(message, "timed out"@),
    ensures
        message == front + "TooManyRequestsException"@ + back ==> failure_of(message)
            == Failure::Throttled,
        message == front + "ThrottlingException"@ + back ==> failure_of(message)
            == Failure::Throttled,
        nowhere(message, "TooManyRequestsException"@) && nowhere(message, "ThrottlingException"@)
            ==> failure_of(message) == Failure::Other,
{
    lemma_occurs_amid(front, "TooManyRequestsException"@, back);
    lemma_occurs_amid(front, "ThrottlingException"@, back);
}

/// The message of an invocation that was not answered in time tells how many seconds it was given,
/// and that of one that could not be made carries the error.
pub proof fn law_messages_tell_of_invocation(timeout_secs: u64, error: Seq<char>)
    ensures
        failed_text(error) == "Lambda invocation failed: "@ + error,
        timed_out_text(timeout_secs) == "Lambda invocation timed out after "@ + decimal(
            timeout_secs as nat,
        ) + "s"@,
        value_of(
            timed_out_text(timeout_secs).subrange(34, timed_out_text(timeout_secs).len() - 1),
        ) == timeout_secs,
{
    reveal_strlit("Lambda invocation timed out after ");
    reveal_strlit("s");
    law_decimal_writes_value(timeout_secs as nat);
    let message = timed_out_text(timeout_secs);
    assert(message.subrange(34, message.len() - 1) == decimal(timeout_secs as nat));
}

/// An answer is handed on whole: its status, whatever it is, its payload byte for byte, and the error
/// of the function. An invocation that was not answered counts as a timeout by its message.
pub proof fn law_answer_is_handed_on(
    timeout_secs: u64,
    invocation: Invocation<'_>,
    result: Result<InvokeResponse, String>,
)
    requires
        is_handed_on(timeout_secs, invocation, result),
    ensures
        result is Ok <==> invocation is Answered,
        invocation is Answered ==> {
            let answer = result->Ok_0;
            &&& answer.status_code == invocation->status_code
            &&& answer.function_error == invocation->function_error
            &&& answer.payload is Some <==> invocation->payload is Some
            &&& answer.payload is Some ==> content(answer.payload->0) == invocation->payload->0@
        },
        invocation is TimedOut ==> failure_of(result->Err_0@) == Failure::Timeout,
        invocation is Failed ==> (invocation->Failed_0@).is_suffix_of(result->Err_0@),
{
    law_unanswered_invocation_is_a_timeout(timeout_secs);
    if invocation is Failed {
        let front = "Lambda invocation failed: "@;
        let error = invocation->Failed_0@;
        let message = result->Err_0@;
        assert(error =~= message.subrange(front.len() as int, message.len() as int));
    }
}

} // verus!
