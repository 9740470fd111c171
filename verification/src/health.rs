//! Health of a backend, read off the bitmap of its last probes.
//!
//! Bit 0 of the bitmap is the newest probe, bit 63 the oldest one that is kept. A backend is
//! healthy while enough of the probes inside its window succeeded.

use vstd::prelude::*;

verus! {

/// Whether the probe made `age` probes ago succeeded (`age` 0 is the newest one).
pub open spec fn probe_succeeded(bitmap: u64, age: nat) -> bool {
    (bitmap >> (age as u64)) & 1u64 == 1u64
}

/// How many of the `n` newest probes succeeded.
pub open spec fn successes(bitmap: u64, n: nat) -> nat
    decreases n,
{
    if n == 0 {
        0
    } else {
        successes(bitmap, (n - 1) as nat) + if probe_succeeded(bitmap, (n - 1) as nat) {
            1nat
        } else {
            0nat
        }
    }
}

/// How many probes a window covers: the bitmap holds no more than 64.
pub open spec fn covered(window: u32) -> nat {
    if window >= 64 {
        64
    } else {
        window as nat
    }
}

/// The bitmap after one more probe: every outcome gets older by one, the oldest one is dropped.
pub open spec fn recorded(bitmap: u64, probe_ok: bool) -> u64 {
    (bitmap << 1u64) | if probe_ok {
        1u64
    } else {
        0u64
    }
}

/// The bitmap after the probes `outcomes`, oldest first.
pub open spec fn recorded_all(bitmap: u64, outcomes: Seq<bool>) -> u64
    decreases outcomes.len(),
{
    if outcomes.len() == 0 {
        bitmap
    } else {
        recorded(recorded_all(bitmap, outcomes.drop_last()), outcomes.last())
    }
}

/// Whether a backend with this bitmap is healthy.
pub open spec fn healthy(bitmap: u64, window: u32, threshold: u32) -> bool {
    successes(bitmap, covered(window)) >= threshold
}

/// `u64::count_ones`: the number of ones in the binary representation.
pub assume_specification[ u64::count_ones ](bits: u64) -> (ones: u32)
    ensures
        ones == successes(bits, 64),
;

/// Masking all but the `w` lowest bits leaves the successes among them.
proof fn lemma_masked_successes(bitmap: u64, w: u32, n: nat)
    requires
        w < 64,
        n <= 64,
    ensures
        successes(bitmap & (((1u64 << w) - 1) as u64), n) == successes(
            bitmap,
            if n <= w {
                n
            } else {
                w as nat
            },
        ),
    decreases n,
{
    if n > 0 {
        let i = (n - 1) as u64;
        lemma_masked_successes(bitmap, w, (n - 1) as nat);
        assert(i < w ==> ((bitmap & (((1u64 << w) - 1) as u64)) >> i) & 1u64 == (bitmap >> i)
            & 1u64) by (bit_vector)
            requires
                w < 64,
                i < 64,
        ;
        assert(i >= w ==> ((bitmap & (((1u64 << w) - 1) as u64)) >> i) & 1u64 == 0) by (bit_vector)
            requires
                w < 64,
                i < 64,
        ;
    }
}

/// Counts the successful probes inside the window.
pub fn good_probes(bitmap: u64, window: u32) -> (good: u32)
    ensures
        good == successes(bitmap, covered(window)),
{
    // Mask the rightmost 'window' bits and count the 1s
    if window >= 64 {
        assert(bitmap & 0xffff_ffff_ffff_ffffu64 == bitmap) by (bit_vector);
        (bitmap & u64::MAX).count_ones()
    } else {
        assert(1u64 << window >= 1) by (bit_vector)
            requires
                window < 64,
        ;
        proof {
            lemma_masked_successes(bitmap, window, 64);
        }
        (bitmap & ((1u64 << window) - 1)).count_ones()
    }
}

/// Whether at least `threshold` probes inside the window succeeded.
pub fn is_healthy(bitmap: u64, window: u32, threshold: u32) -> (result: bool)
    ensures
        result == healthy(bitmap, window, threshold),
{
    good_probes(bitmap, window) >= threshold
}

/// What a probe made of the health of a backend.
pub struct HealthUpdate {
    /// Bitmap with the new probe result
    pub bitmap: u64,
    /// Current health status (true = healthy)
    pub is_healthy: bool,
    /// Whether health status remained unchanged
    pub health_unchanged: bool,
}

/// Enters the outcome of a probe into the bitmap and compares the health before and after.
pub fn update_health(bitmap: u64, threshold: u32, window: u32, probe_ok: bool) -> (update:
    HealthUpdate)
    ensures
        update.bitmap == recorded(bitmap, probe_ok),
        update.is_healthy == healthy(update.bitmap, window, threshold),
        update.health_unchanged == (healthy(bitmap, window, threshold) == healthy(
            update.bitmap,
            window,
            threshold,
        )),
{
    let old_health = is_healthy(bitmap, window, threshold);
    let new_bit: u64 = if probe_ok {
        1
    } else {
        0
    };
    let shifted: u64 = bitmap.wrapping_shl(1) | new_bit;
    assert(bitmap << 1u32 == bitmap << 1u64) by (bit_vector);
    let new_health = is_healthy(shifted, window, threshold);
    HealthUpdate {
        bitmap: shifted,
        is_healthy: new_health,
        health_unchanged: new_health == old_health,
    }
}

/// The bitmap of a backend that starts with `initial` probes taken for successful.
pub fn initial_history(initial: u32) -> (bitmap: u64)
    ensures
        forall|age: nat| age < 64 ==> (#[trigger] probe_succeeded(bitmap, age) <==> age < initial),
{
    let mut h: u64 = 0;
    let mut i: u32 = 0;
    assert(forall|age: u64| age < 64 ==> #[trigger] (0u64 >> age) & 1u64 == 0) by (bit_vector);
    while i < initial && i < 64
        invariant
            i <= 64,
            i <= initial,
            forall|age: nat| age < 64 ==> (#[trigger] probe_succeeded(h, age) <==> age < i),
        decreases 64 - i,
    {
        let ghost before = h;
        h = h | (1u64 << i);
        assert forall|age: nat| age < 64 implies (#[trigger] probe_succeeded(h, age) <==> age < i
            + 1) by {
            let a = age as u64;
            assert(probe_succeeded(before, age) <==> age < i);
            assert(((before | (1u64 << i)) >> a) & 1u64 == if a == i {
                1u64
            } else {
                (before >> a) & 1u64
            }) by (bit_vector)
                requires
                    a < 64,
                    i < 64,
            ;
        }
        i = i + 1;
    }
    h
}

/// Recording a probe puts its outcome at age 0 and makes every kept outcome older by one.
pub proof fn law_recording_ages_every_probe(bitmap: u64, probe_ok: bool)
    ensures
        probe_succeeded(recorded(bitmap, probe_ok), 0) == probe_ok,
        forall|age: nat|
            age < 63 ==> #[trigger] probe_succeeded(recorded(bitmap, probe_ok), age + 1)
                == probe_succeeded(bitmap, age),
{
    let bit: u64 = if probe_ok {
        1
    } else {
        0
    };
    assert((((bitmap << 1u64) | bit) >> 0u64) & 1u64 == bit) by (bit_vector)
        requires
            bit == 0 || bit == 1,
    ;
    assert forall|age: nat| age < 63 implies #[trigger] probe_succeeded(
        recorded(bitmap, probe_ok),
        age + 1,
    ) == probe_succeeded(bitmap, age) by {
        let a = age as u64;
        let b = (age + 1) as u64;
        assert((((bitmap << 1u64) | bit) >> b) & 1u64 == (bitmap >> a) & 1u64) by (bit_vector)
            requires
                bit == 0 || bit == 1,
                a < 63,
                b == a + 1,
        ;
    }
}

/// The newest `n + 1` probes after a recording are the recorded one and the newest `n` before it.
pub proof fn law_recording_counts_one_probe(bitmap: u64, probe_ok: bool, n: nat)
    requires
        n < 64,
    ensures
        successes(recorded(bitmap, probe_ok), n + 1) == successes(bitmap, n) + if probe_ok {
            1nat
        } else {
            0nat
        },
    decreases n,
{
    law_recording_ages_every_probe(bitmap, probe_ok);
    let after = recorded(bitmap, probe_ok);
    if n == 0 {
        reveal_with_fuel(successes, 2);
    } else {
        law_recording_counts_one_probe(bitmap, probe_ok, (n - 1) as nat);
        assert(probe_succeeded(after, (n - 1) as nat + 1) == probe_succeeded(
            bitmap,
            (n - 1) as nat,
        ));
    }
}

/// The bitmap is a record of the last 64 probes: the newest outcomes of a run of probes stand at
/// the lowest bits, and behind them what was recorded before.
pub proof fn law_bitmap_records_last_probes(bitmap: u64, outcomes: Seq<bool>, age: nat)
    requires
        age < 64,
    ensures
        age < outcomes.len() ==> probe_succeeded(recorded_all(bitmap, outcomes), age)
            == outcomes[outcomes.len() - 1 - age],
        age >= outcomes.len() ==> probe_succeeded(recorded_all(bitmap, outcomes), age)
            == probe_succeeded(bitmap, (age - outcomes.len()) as nat),
    decreases outcomes.len(),
{
    if outcomes.len() > 0 {
        let before = recorded_all(bitmap, outcomes.drop_last());
        law_recording_ages_every_probe(before, outcomes.last());
        if age > 0 {
            law_bitmap_records_last_probes(bitmap, outcomes.drop_last(), (age - 1) as nat);
            assert(probe_succeeded(recorded(before, outcomes.last()), (age - 1) as nat + 1)
                == probe_succeeded(before, (age - 1) as nat));
        }
    }
}

/// No more probes succeed than are looked at.
pub proof fn law_successes_bounded(bitmap: u64, n: nat)
    ensures
        successes(bitmap, n) <= n,
    decreases n,
{
    if n > 0 {
        law_successes_bounded(bitmap, (n - 1) as nat);
    }
}

/// Probes that agree over the newest `n` have as many successes there.
proof fn lemma_same_successes(left: u64, right: u64, n: nat)
    requires
        forall|age: nat|
            age < n ==> #[trigger] probe_succeeded(left, age) == probe_succeeded(right, age),
    ensures
        successes(left, n) == successes(right, n),
    decreases n,
{
    if n > 0 {
        lemma_same_successes(left, right, (n - 1) as nat);
    }
}

/// Health depends on the probes inside the window and on no older one.
pub proof fn law_health_ignores_probes_outside_window(
    left: u64,
    right: u64,
    window: u32,
    threshold: u32,
)
    requires
        forall|age: nat|
            age < covered(window) ==> #[trigger] probe_succeeded(left, age) == probe_succeeded(
                right,
                age,
            ),
    ensures
        healthy(left, window, threshold) == healthy(right, window, threshold),
{
    lemma_same_successes(left, right, covered(window));
}

/// The successes of a bitmap whose newest `n` probes all had the outcome `ok`.
proof fn lemma_uniform_successes(bitmap: u64, n: nat, ok: bool)
    requires
        forall|age: nat| age < n ==> #[trigger] probe_succeeded(bitmap, age) == ok,
    ensures
        successes(bitmap, n) == if ok {
            n
        } else {
            0
        },
    decreases n,
{
    if n > 0 {
        lemma_uniform_successes(bitmap, (n - 1) as nat, ok);
    }
}

/// Whatever went before, once every probe of a window had the same outcome the backend is healthy
/// exactly if that outcome was success and the window can reach the threshold, or if the threshold
/// is 0.
pub proof fn law_steady_probes_settle_health(
    bitmap: u64,
    outcomes: Seq<bool>,
    window: u32,
    threshold: u32,
    ok: bool,
)
    requires
        outcomes.len() >= covered(window),
        forall|i: int|
            outcomes.len() - covered(window) <= i < outcomes.len() ==> #[trigger] outcomes[i] == ok,
    ensures
        healthy(recorded_all(bitmap, outcomes), window, threshold) <==> if ok {
            threshold <= covered(window)
        } else {
            threshold == 0
        },
{
    let after = recorded_all(bitmap, outcomes);
    assert forall|age: nat| age < covered(window) implies #[trigger] probe_succeeded(after, age)
        == ok by {
        law_bitmap_records_last_probes(bitmap, outcomes, age);
        assert(outcomes[outcomes.len() - 1 - age] == ok);
    }
    lemma_uniform_successes(after, covered(window), ok);
}

/// One more successful probe never turns a healthy backend sick.
pub proof fn law_success_keeps_health(bitmap: u64, window: u32, threshold: u32)
    requires
        healthy(bitmap, window, threshold),
    ensures
        healthy(recorded(bitmap, true), window, threshold),
{
    let n = covered(window);
    if n > 0 {
        law_recording_counts_one_probe(bitmap, true, (n - 1) as nat);
    }
}

/// One more failed probe never turns a sick backend healthy.
pub proof fn law_failure_keeps_sickness(bitmap: u64, window: u32, threshold: u32)
    requires
        !healthy(bitmap, window, threshold),
    ensures
        !healthy(recorded(bitmap, false), window, threshold),
{
    let n = covered(window);
    if n > 0 {
        law_recording_counts_one_probe(bitmap, false, (n - 1) as nat);
    }
}

/// The successes of a history that starts with `initial` probes taken for successful.
pub proof fn law_initial_history_successes(bitmap: u64, initial: u32, n: nat)
    requires
        n <= 64,
        forall|age: nat| age < 64 ==> (#[trigger] probe_succeeded(bitmap, age) <==> age < initial),
    ensures
        successes(bitmap, n) == if n <= initial {
            n
        } else {
            initial as nat
        },
    decreases n,
{
    if n > 0 {
        law_initial_history_successes(bitmap, initial, (n - 1) as nat);
        assert(probe_succeeded(bitmap, (n - 1) as nat) <==> n - 1 < initial);
    }
}

} // verus!
