//! What probes decide: which requests are let in, and what is shown of a backend.

use crate::exchange::{follows, FetchAction, FetchEvent, Stage};
use crate::fetch::{health_of, FetchError, VCLBackend};
use crate::health::{
    covered, law_bitmap_records_last_probes, law_health_ignores_probes_outside_window,
    probe_succeeded, recorded_all, successes,
};
use crate::invocation::InvokeResponse;
use crate::listing::{history_picture, probed_text, unprobed_text};
use crate::numbers::{decimal, decimal_in_two, signed_decimal};
use crate::outside::{debug_text, option_view};
use crate::probe::{good_result, log_text, result_text, Probe, ProbeState};
use bytes::Bytes;
use vstd::prelude::*;

verus! {

/// How many of the outcomes are good.
pub open spec fn good_among(outcomes: Seq<bool>) -> nat {
    outcomes.filter(|good: bool| good).len()
}

/// The newest outcomes.
pub open spec fn newest(outcomes: Seq<bool>, n: int) -> Seq<bool> {
    outcomes.skip(outcomes.len() - n)
}

/// How many of the newest outcomes count: those in the window, and no more than a history keeps.
pub open spec fn counted(window: u32) -> int {
    if window < 64 {
        window as int
    } else {
        64
    }
}

/// The successes that a history counts are the good ones among the newest outcomes.
proof fn lemma_successes_are_good_outcomes(bitmap: u64, outcomes: Seq<bool>, n: nat)
    requires
        n <= 64,
        n <= outcomes.len(),
    ensures
        successes(recorded_all(bitmap, outcomes), n) == good_among(newest(outcomes, n as int)),
    decreases n,
{
    let f = |good: bool| good;
    if n == 0 {
        assert(newest(outcomes, 0) == Seq::<bool>::empty());
        reveal(Seq::filter);
    } else {
        lemma_successes_are_good_outcomes(bitmap, outcomes, (n - 1) as nat);
        law_bitmap_records_last_probes(bitmap, outcomes, (n - 1) as nat);
        let oldest = seq![outcomes[outcomes.len() - n]];
        let rest = newest(outcomes, n - 1);
        assert(newest(outcomes, n as int) == oldest + rest);
        Seq::filter_distributes_over_add(oldest, rest, f);
        assert(oldest.filter(f).len() == if oldest[0] {
            1nat
        } else {
            0nat
        }) by {
            reveal(Seq::filter);
            assert(oldest.drop_last() == Seq::<bool>::empty());
            assert(Seq::<bool>::empty().filter(f).len() == 0);
        }
    }
}

/// A backend with a probe is healthy exactly if at least as many of its newest probes as the
/// threshold says were good, counted over the window.
pub proof fn law_newest_probes_decide_health(state: ProbeState, bitmap: u64, outcomes: Seq<bool>)
    requires
        state.history == recorded_all(bitmap, outcomes),
        counted(state.spec.window) <= outcomes.len(),
    ensures
        health_of(Some(state)).0 <==> good_among(newest(outcomes, counted(state.spec.window)))
            >= state.spec.threshold,
        health_of(Some(state)).1 == state.history,
{
    lemma_successes_are_good_outcomes(bitmap, outcomes, counted(state.spec.window) as nat);
}

/// A request to a backend with a probe is let in exactly if at least as many of the newest probes as
/// the threshold says were good, counted over the window; any other is turned away and counts as a
/// failure.
pub proof fn law_newest_probes_decide_admission<C: Clone>(
    before: VCLBackend<C>,
    after: VCLBackend<C>,
    next: Stage,
    action: FetchAction<C>,
    bitmap: u64,
    outcomes: Seq<bool>,
)
    requires
        before.probe_state is Some,
        before.probe_state->0.history == recorded_all(bitmap, outcomes),
        counted(before.probe_state->0.spec.window) <= outcomes.len(),
        follows(before, Stage::Arrived, FetchEvent::Begun, after, next, action),
    ensures
        ({
            let spec = before.probe_state->0.spec;
            let good = good_among(newest(outcomes, counted(spec.window)));
            &&& good >= spec.threshold ==> next == Stage::LetIn && action is Collect
                && after.stats.fail == before.stats.fail
            &&& good < spec.threshold ==> next == Stage::Over && action == FetchAction::<C>::Fail(
                FetchError::Unhealthy,
            ) && after.stats.fail == before.stats.fail.wrapping_add(1)
            &&& after.stats.req == before.stats.req.wrapping_add(1)
            &&& after.stats.happy == before.probe_state->0.history
        }),
{
    law_newest_probes_decide_health(before.probe_state->0, bitmap, outcomes);
}

/// After as many failed probes in a row as the window covers, every request is turned away, whatever
/// older probes were.
pub proof fn law_failed_window_turns_requests_away<C: Clone>(
    before: VCLBackend<C>,
    after: VCLBackend<C>,
    next: Stage,
    action: FetchAction<C>,
    bitmap: u64,
    outcomes: Seq<bool>,
)
    requires
        before.probe_state is Some,
        before.probe_state->0.history == recorded_all(bitmap, outcomes),
        counted(before.probe_state->0.spec.window) <= outcomes.len(),
        before.probe_state->0.spec.threshold > 0,
        forall|i: int|
            outcomes.len() - counted(before.probe_state->0.spec.window) <= i < outcomes.len()
                ==> !#[trigger] outcomes[i],
        follows(before, Stage::Arrived, FetchEvent::Begun, after, next, action),
    ensures
        next == Stage::Over,
        action == FetchAction::<C>::Fail(FetchError::Unhealthy),
{
    law_newest_probes_decide_admission(before, after, next, action, bitmap, outcomes);
    let looked_at = newest(outcomes, counted(before.probe_state->0.spec.window));
    assert forall|i: int| 0 <= i < looked_at.len() implies !#[trigger] looked_at[i] by {
        assert(!outcomes[outcomes.len() - counted(before.probe_state->0.spec.window) + i]);
    }
    lemma_none_good(looked_at);
}

/// Where no outcome is good, none is counted.
proof fn lemma_none_good(outcomes: Seq<bool>)
    requires
        forall|i: int| 0 <= i < outcomes.len() ==> !#[trigger] outcomes[i],
    ensures
        good_among(outcomes) == 0,
    decreases outcomes.len(),
{
    reveal(Seq::filter);
    if outcomes.len() > 0 {
        let rest = outcomes.drop_last();
        assert forall|i: int| 0 <= i < rest.len() implies !#[trigger] rest[i] by {
            assert(!outcomes[i]);
        }
        lemma_none_good(rest);
        assert(!outcomes[outcomes.len() - 1]);
    }
}

/// Probes that the window no longer covers play no part: backends whose histories agree inside the
/// window let in the same requests.
pub proof fn law_older_probes_do_not_matter<C: Clone>(
    one: VCLBackend<C>,
    one_after: VCLBackend<C>,
    one_next: Stage,
    one_action: FetchAction<C>,
    other: VCLBackend<C>,
    other_after: VCLBackend<C>,
    other_next: Stage,
    other_action: FetchAction<C>,
)
    requires
        one.probe_state is Some,
        other.probe_state is Some,
        one.probe_state->0.spec.window == other.probe_state->0.spec.window,
        one.probe_state->0.spec.threshold == other.probe_state->0.spec.threshold,
        forall|age: nat|
            age < counted(one.probe_state->0.spec.window) ==> #[trigger] probe_succeeded(
                one.probe_state->0.history,
                age,
            ) == probe_succeeded(other.probe_state->0.history, age),
        follows(one, Stage::Arrived, FetchEvent::Begun, one_after, one_next, one_action),
        follows(other, Stage::Arrived, FetchEvent::Begun, other_after, other_next, other_action),
    ensures
        one_next == other_next,
        one_action is Collect <==> other_action is Collect,
        one_action is Fail <==> other_action is Fail,
{
    law_health_ignores_probes_outside_window(
        one.probe_state->0.history,
        other.probe_state->0.history,
        one.probe_state->0.spec.window,
        one.probe_state->0.spec.threshold,
    );
}

/// Every request to a backend without a probe is let in.
pub proof fn law_unprobed_backend_lets_requests_in<C: Clone>(
    before: VCLBackend<C>,
    after: VCLBackend<C>,
    next: Stage,
    action: FetchAction<C>,
)
    requires
        before.probe_state is None,
        follows(before, Stage::Arrived, FetchEvent::Begun, after, next, action),
    ensures
        next == Stage::LetIn,
        action is Collect,
        after.stats.fail == before.stats.fail,
        after.stats.req == before.stats.req.wrapping_add(1),
        after.stats.happy == u64::MAX,
        health_of(before.probe_state) == (true, u64::MAX),
{
}

/// Whether a probe is good does not depend on what the function returned: an answer with status 200
/// and without an error of the function is good, whatever its payload is, and no other answer is.
/// What is said of the answer does not depend on the payload either.
pub proof fn law_payload_plays_no_part_in_judging(response: InvokeResponse, payload: Option<Bytes>)
    ensures
        ({
            let result = Ok::<InvokeResponse, String>(response);
            let other = Ok::<InvokeResponse, String>(InvokeResponse { payload, ..response });
            &&& good_result(result) <==> response.status_code == 200
                && response.function_error is None
            &&& good_result(other) == good_result(result)
            &&& result_text(other) == result_text(result)
        }),
{
}

/// A probe whose invocation fails is not good, and what is said of it ends in the message of the
/// failure.
pub proof fn law_failed_invocation_is_no_good_probe(error: String)
    ensures
        !good_result(Err(error)),
        result_text(Err(error)) == "Error: "@ + error@,
{
}

/// What is said of an answer names its status, and the error of the function where the probe is not
/// good.
pub proof fn law_judgement_names_status(response: InvokeResponse)
    ensures
        ({
            let said = result_text(Ok::<InvokeResponse, String>(response));
            let status = signed_decimal(response.status_code as int);
            if response.status_code == 200 && response.function_error is None {
                said == "Success: status "@ + status
            } else {
                said == "Error: status "@ + status + ", function_error: "@ + debug_text(
                    option_view(response.function_error),
                )
            }
        }),
{
}

/// The short listing of a backend with a probe shows how many of the newest probes were good, the
/// window, and the health that they make, in JSON and in plain text.
pub proof fn law_short_listing_shows_newest_probes(
    state: ProbeState,
    average: Seq<char>,
    spec_json: Seq<char>,
    bitmap: u64,
    outcomes: Seq<bool>,
)
    requires
        state.history == recorded_all(bitmap, outcomes),
        counted(state.spec.window) <= outcomes.len(),
    ensures
        ({
            let window = state.spec.window;
            let good = good_among(newest(outcomes, counted(window)));
            let health = if good >= state.spec.threshold {
                "healthy"@
            } else {
                "sick"@
            };
            &&& probed_text(state, average, spec_json, true, false) == "["@ + decimal(good) + ", "@
                + decimal(window as nat) + ", \""@ + health + "\"]"@
            &&& probed_text(state, average, spec_json, false, false) == decimal(good) + "/"@
                + decimal(window as nat) + "\t"@ + health
        }),
{
    lemma_successes_are_good_outcomes(bitmap, outcomes, counted(state.spec.window) as nat);
}

/// The short listing calls a backend with a probe healthy exactly if requests to it are let in, in
/// JSON as in plain text, and sick otherwise.
pub proof fn law_short_listing_agrees_with_admission<C: Clone>(
    before: VCLBackend<C>,
    after: VCLBackend<C>,
    next: Stage,
    action: FetchAction<C>,
    average: Seq<char>,
    spec_json: Seq<char>,
)
    requires
        before.probe_state is Some,
        follows(before, Stage::Arrived, FetchEvent::Begun, after, next, action),
    ensures
        ({
            let json = probed_text(before.probe_state->0, average, spec_json, true, false);
            let plain = probed_text(before.probe_state->0, average, spec_json, false, false);
            &&& action is Collect <==> "healthy\"]"@.is_suffix_of(json)
            &&& action is Fail <==> "sick\"]"@.is_suffix_of(json)
            &&& action is Collect <==> "healthy"@.is_suffix_of(plain)
            &&& action is Fail <==> "sick"@.is_suffix_of(plain)
        }),
{
    let state = before.probe_state->0;
    let json = probed_text(state, average, spec_json, true, false);
    let plain = probed_text(state, average, spec_json, false, false);
    reveal_strlit("healthy");
    reveal_strlit("sick");
    reveal_strlit("\"]");
    reveal_strlit("healthy\"]");
    reveal_strlit("sick\"]");
    let good = decimal(successes(state.history, covered(state.spec.window)));
    let window = decimal(state.spec.window as nat);
    let front = "["@ + good + ", "@ + window + ", \""@;
    let plain_front = good + "/"@ + window + "\t"@;
    if health_of(before.probe_state).0 {
        assert(json == front + "healthy"@ + "\"]"@);
        assert("healthy\"]"@ =~= json.subrange(front.len() as int, json.len() as int));
        assert(plain == plain_front + "healthy"@);
        assert("healthy"@ =~= plain.subrange(plain_front.len() as int, plain.len() as int));
        assert(json[json.len() - 3] == 'y');
        assert(plain[plain.len() - 1] == 'y');
    } else {
        assert(json == front + "sick"@ + "\"]"@);
        assert("sick\"]"@ =~= json.subrange(front.len() as int, json.len() as int));
        assert(plain == plain_front + "sick"@);
        assert("sick"@ =~= plain.subrange(plain_front.len() as int, plain.len() as int));
        assert(json[json.len() - 3] == 'k');
        assert(plain[plain.len() - 1] == 'k');
    }
    if "healthy\"]"@.is_suffix_of(json) {
        assert(json.subrange(json.len() - 9, json.len() as int)[6] == 'y');
    }
    if "sick\"]"@.is_suffix_of(json) {
        assert(json.subrange(json.len() - 6, json.len() as int)[3] == 'k');
    }
    if "healthy"@.is_suffix_of(plain) {
        assert(plain.subrange(plain.len() - 7, plain.len() as int)[6] == 'y');
    }
    if "sick"@.is_suffix_of(plain) {
        assert(plain.subrange(plain.len() - 4, plain.len() as int)[3] == 'k');
    }
}

/// The picture of a history shows the newest outcomes, the newest at its right end: `H` for a good
/// one, `-` for any other.
pub proof fn law_picture_shows_newest_outcomes(bitmap: u64, outcomes: Seq<bool>, age: int)
    requires
        0 <= age < 64,
        age < outcomes.len(),
    ensures
        history_picture(recorded_all(bitmap, outcomes)).len() == 64,
        history_picture(recorded_all(bitmap, outcomes))[63 - age] == if outcomes[outcomes.len() - 1
            - age] {
            'H'
        } else {
            '-'
        },
{
    law_bitmap_records_last_probes(bitmap, outcomes, age as nat);
}

/// The detailed listing shows how many of the newest probes were good, the threshold, the window,
/// the average and the picture of the history; in JSON it shows the probe as it is given.
pub proof fn law_detailed_listing_shows_newest_probes(
    state: ProbeState,
    average: Seq<char>,
    spec_json: Seq<char>,
    bitmap: u64,
    outcomes: Seq<bool>,
)
    requires
        state.history == recorded_all(bitmap, outcomes),
        counted(state.spec.window) <= outcomes.len(),
    ensures
        probed_text(state, average, spec_json, true, true) == spec_json + ",\n"@,
        probed_text(state, average, spec_json, false, true) == "\n Current states  good: "@
            + decimal_in_two(good_among(newest(outcomes, counted(state.spec.window))))
            + " threshold: "@ + decimal_in_two(state.spec.threshold as nat) + " window: "@
            + decimal_in_two(state.spec.window as nat)
            + "\n  Average response time of good probes: "@ + average
            + "\n  Oldest ================================================== Newest\n  "@
            + history_picture(state.history),
{
    lemma_successes_are_good_outcomes(bitmap, outcomes, counted(state.spec.window) as nat);
}

/// A backend without a probe is listed as healthy where details are asked for; else nothing is shown
/// of it.
pub proof fn law_unprobed_backend_is_listed_as_healthy(json: bool, detailed: bool)
    ensures
        unprobed_text(json, detailed) == (if json {
            if detailed {
                "[0, 0, \""@ + "healthy"@ + "\"],"@
            } else {
                "[]"@
            }
        } else if detailed {
            "0/0\t"@ + "healthy"@
        } else {
            ""@
        }),
{
}

/// The line for the log tells whether the health changed and what it has become, by the newest
/// outcomes before the probe and after it; then come the backend, the good probes, the threshold,
/// the window, the times and what is said of the result.
pub proof fn law_log_line_tells_change(
    name: Seq<char>,
    probe: Probe,
    bitmap: u64,
    outcomes: Seq<bool>,
    outcome: bool,
    time: Seq<char>,
    average: Seq<char>,
    message: Seq<char>,
)
    requires
        counted(probe.window) <= outcomes.len(),
    ensures
        ({
            let after = outcomes.push(outcome);
            let before_good = good_among(newest(outcomes, counted(probe.window)));
            let after_good = good_among(newest(after, counted(probe.window)));
            let was = before_good >= probe.threshold;
            let is = after_good >= probe.threshold;
            log_text(
                name,
                recorded_all(bitmap, outcomes),
                recorded_all(bitmap, after),
                probe,
                time,
                average,
                message,
            ) == name + " "@ + (if was == is {
                "Still"@
            } else {
                "Went"@
            }) + " "@ + (if is {
                "healthy"@
            } else {
                "sick"@
            }) + " "@ + name + " "@ + decimal(after_good) + " "@ + decimal(probe.threshold as nat)
                + " "@ + decimal(probe.window as nat) + " "@ + time + " "@ + average + " "@
                + message
        }),
{
    lemma_successes_are_good_outcomes(bitmap, outcomes, counted(probe.window) as nat);
    lemma_successes_are_good_outcomes(bitmap, outcomes.push(outcome), counted(probe.window) as nat);
}

} // verus!
