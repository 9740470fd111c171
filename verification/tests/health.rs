use libvmod_lambda::health::{good_probes, initial_history, is_healthy, update_health};

#[test]
fn good_probes_counts_inside_the_window() {
    assert_eq!(good_probes(0b1011, 4), 3);
    assert_eq!(good_probes(0b1011, 2), 2);
    assert_eq!(good_probes(0b1011, 0), 0);
    assert_eq!(good_probes(u64::MAX, 63), 63);
    assert_eq!(good_probes(u64::MAX, 64), 64);
    assert_eq!(good_probes(u64::MAX, 1000), 64);
    assert_eq!(good_probes(1 << 63, 63), 0);
    assert_eq!(good_probes(1 << 63, 64), 1);
}

#[test]
fn health_needs_the_threshold() {
    assert!(is_healthy(0b0111, 8, 3));
    assert!(!is_healthy(0b0011, 8, 3));
    assert!(!is_healthy(0b1110_0000, 5, 3));
    assert!(is_healthy(0, 8, 0));
}

#[test]
fn recording_shifts_the_history() {
    let update = update_health(0b011, 3, 8, true);
    assert_eq!(update.bitmap, 0b0111);
    assert!(update.is_healthy);
    assert!(!update.health_unchanged);

    let update = update_health(update.bitmap, 3, 8, false);
    assert_eq!(update.bitmap, 0b1110);
    assert!(update.is_healthy);
    assert!(update.health_unchanged);

    let update = update_health(1 << 63, 1, 64, false);
    assert_eq!(update.bitmap, 0);
    assert!(!update.is_healthy);
    assert!(!update.health_unchanged);
}

#[test]
fn a_history_starts_with_good_probes() {
    assert_eq!(initial_history(0), 0);
    assert_eq!(initial_history(3), 0b111);
    assert_eq!(initial_history(64), u64::MAX);
    assert_eq!(initial_history(1000), u64::MAX);
}

#[test]
fn steady_probes_settle_health() {
    let mut bitmap = 0;
    for _ in 0..8 {
        bitmap = update_health(bitmap, 5, 8, true).bitmap;
    }
    assert!(is_healthy(bitmap, 8, 5));
    for _ in 0..8 {
        bitmap = update_health(bitmap, 5, 8, false).bitmap;
    }
    assert!(!is_healthy(bitmap, 8, 5));
    assert_eq!(bitmap, 0xff00);
}

#[test]
fn one_outcome_never_works_against_itself() {
    for bitmap in [0u64, 0b10101, 0b111, u64::MAX, 1 << 63] {
        for window in [1u32, 3, 8, 64] {
            for threshold in [1u32, 2, 3] {
                if is_healthy(bitmap, window, threshold) {
                    assert!(update_health(bitmap, threshold, window, true).is_healthy);
                } else {
                    assert!(!update_health(bitmap, threshold, window, false).is_healthy);
                }
            }
        }
    }
}
