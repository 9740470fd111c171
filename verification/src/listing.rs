//! What a backend shows of its health when backends are listed.

use crate::health::{covered, good_probes, healthy, probe_succeeded, successes};
use crate::numbers::{decimal, decimal_in_two, decimal_text, decimal_text_in_two};
use crate::probe::{health_name, health_text, ProbeState};
use vstd::prelude::*;

verus! {

/// What a backend without a probe shows: it is always healthy.
pub open spec fn unprobed_text(json: bool, detailed: bool) -> Seq<char> {
    if json && detailed {
        "[0, 0, \""@ + health_name(true) + "\"],"@
    } else if json {
        "[]"@
    } else if detailed {
        "0/0\t"@ + health_name(true)
    } else {
        ""@
    }
}

/// Writes what a backend without a probe shows.
pub fn list_unprobed(json: bool, detailed: bool) -> (text: String)
    ensures
        text@ == unprobed_text(json, detailed),
{
    let state = health_text(true);
    if json {
        if detailed {
            "[0, 0, \"".to_owned().concat(state.as_str()).concat("\"],")
        } else {
            "[]".to_owned()
        }
    } else if detailed {
        "0/0\t".to_owned().concat(state.as_str())
    } else {
        "".to_owned()
    }
}

/// A probe history as a picture, from the oldest probe to the newest: `H` for a good probe, `-` for
/// any other.
pub open spec fn history_picture(bitmap: u64) -> Seq<char> {
    Seq::new(
        64,
        |i: int|
            if probe_succeeded(bitmap, (63 - i) as nat) {
                'H'
            } else {
                '-'
            },
    )
}

/// Draws a probe history.
pub fn draw_history(bitmap: u64) -> (picture: String)
    ensures
        picture@ == history_picture(bitmap),
{
    let mut picture = String::new();
    let mut i: u64 = 0;
    while i < 64
        invariant
            i <= 64,
            picture@ == history_picture(bitmap).take(i as int),
        decreases 64 - i,
    {
        let shift: u64 = 63 - i;
        assert(probe_succeeded(bitmap, (63 - i) as nat) == ((bitmap >> shift) & 1u64 == 1u64));
        let mark = if (bitmap >> shift) & 1 == 1 {
            'H'
        } else {
            '-'
        };
        picture.push(mark);
        assert(history_picture(bitmap).take(i + 1) == history_picture(bitmap).take(i as int).push(
            history_picture(bitmap)[i as int],
        ));
        i = i + 1;
    }
    assert(history_picture(bitmap).take(64) == history_picture(bitmap));
    picture
}

/// What a backend with a probe shows, with the average time of its good probes and its probe in JSON
/// as they are to be printed.
pub open spec fn probed_text(
    state: ProbeState,
    average: Seq<char>,
    spec_json: Seq<char>,
    json: bool,
    detailed: bool,
) -> Seq<char> {
    let window = state.spec.window;
    let threshold = state.spec.threshold;
    let good = successes(state.history, covered(window));
    let health = health_name(healthy(state.history, window, threshold));
    if json && detailed {
        spec_json + ",\n"@
    } else if json {
        "["@ + decimal(good) + ", "@ + decimal(window as nat) + ", \""@ + health + "\"]"@
    } else if detailed {
        "\n Current states  good: "@ + decimal_in_two(good) + " threshold: "@ + decimal_in_two(
            threshold as nat,
        ) + " window: "@ + decimal_in_two(window as nat)
            + "\n  Average response time of good probes: "@ + average
            + "\n  Oldest ================================================== Newest\n  "@
            + history_picture(state.history)
    } else {
        decimal(good) + "/"@ + decimal(window as nat) + "\t"@ + health
    }
}

/// Writes what a backend with a probe shows.
pub fn list_probed(
    state: &ProbeState,
    average: &str,
    spec_json: &str,
    json: bool,
    detailed: bool,
) -> (text: String)
    ensures
        text@ == probed_text(*state, average@, spec_json@, json, detailed),
{
    let window: u32 = state.spec.window;
    let good: u32 = good_probes(state.history, window);
    let health = health_text(state.is_healthy());
    if json {
        if detailed {
            spec_json.to_owned().concat(",\n")
        } else {
            "[".to_owned().concat(decimal_text(good as u64).as_str()).concat(", ").concat(
                decimal_text(window as u64).as_str(),
            ).concat(", \"").concat(health.as_str()).concat("\"]")
        }
    } else if detailed {
        "\n Current states  good: ".to_owned().concat(decimal_text_in_two(good).as_str()).concat(
            " threshold: ",
        ).concat(decimal_text_in_two(state.spec.threshold).as_str()).concat(" window: ").concat(
            decimal_text_in_two(window).as_str(),
        ).concat("\n  Average response time of good probes: ").concat(average).concat(
            "\n  Oldest ================================================== Newest\n  ",
        ).concat(draw_history(state.history).as_str())
    } else {
        decimal_text(good as u64).concat("/").concat(decimal_text(window as u64).as_str()).concat(
            "\t",
        ).concat(health.as_str())
    }
}

/// How many good probes a picture shows.
pub open spec fn shown_good(picture: Seq<char>) -> nat
    decreases picture.len(),
{
    if picture.len() == 0 {
        0
    } else {
        shown_good(picture.drop_first()) + if picture[0] == 'H' {
            1nat
        } else {
            0nat
        }
    }
}

/// The last `n` marks of the picture show the successes among the `n` newest probes.
proof fn lemma_picture_shows_successes(bitmap: u64, n: nat)
    requires
        n <= 64,
    ensures
        shown_good(history_picture(bitmap).skip(64 - n)) == successes(bitmap, n),
    decreases n,
{
    let marks = history_picture(bitmap).skip(64 - n);
    if n > 0 {
        lemma_picture_shows_successes(bitmap, (n - 1) as nat);
        assert(marks.drop_first() == history_picture(bitmap).skip(64 - (n - 1)));
        assert(marks[0] == history_picture(bitmap)[64 - n]);
    }
}

/// The picture of a history shows what the count of good probes counts: in the part of it that the
/// window covers there are as many `H` as there are good probes.
pub proof fn law_picture_shows_good_probes(bitmap: u64, window: u32)
    ensures
        shown_good(history_picture(bitmap).skip(64 - covered(window))) == successes(
            bitmap,
            covered(window),
        ),
{
    lemma_picture_shows_successes(bitmap, covered(window));
}

} // verus!
