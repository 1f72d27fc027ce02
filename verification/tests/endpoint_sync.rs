use oaat::sync::{
    controller_to_local, exact_controller_to_local, exact_local_to_controller,
    local_to_controller, PtsTracker,
};

#[test]
fn pts_tracker_zero_before_start() {
    let tracker = PtsTracker::new(1_000_000_000, 48_000);
    assert_eq!(tracker.drift_frames(500_000_000, 0), 0);
}

#[test]
fn pts_tracker_on_schedule() {
    let tracker = PtsTracker::new(0, 48_000);
    // After exactly 1 second, 48000 frames should have played.
    assert_eq!(tracker.drift_frames(1_000_000_000, 48_000), 0);
}

#[test]
fn pts_tracker_behind_schedule() {
    let tracker = PtsTracker::new(0, 48_000);
    // 1 second elapsed but only 47900 frames played → 100 frames behind.
    assert_eq!(tracker.drift_frames(1_000_000_000, 47_900), 100);
}

#[test]
fn pts_tracker_ahead_of_schedule() {
    let tracker = PtsTracker::new(0, 48_000);
    assert_eq!(tracker.drift_frames(1_000_000_000, 48_100), -100);
}

#[test]
fn pts_tracker_100ppm_drift_after_one_minute() {
    // A DAC crystal 100 ppm slow plays 47995.2 frames/s instead of 48000.
    let tracker = PtsTracker::new(0, 48_000);
    let played_in_60s = (48_000.0f64 * 60.0 * (1.0 - 100e-6)) as u64;
    let drift = tracker.drift_frames(60_000_000_000, played_in_60s);
    // 100 ppm over 60 s = 288 frames = 6 ms. The servo must see this.
    assert!((drift - 288).abs() <= 1, "expected ~288 frames, got {drift}");
}

#[test]
fn pts_tracker_rounds_partial_frames_down() {
    let tracker = PtsTracker::new(10, 44_100);
    assert_eq!(tracker.start_ns(), 10);
    // 1 ms → 44.1 frames expected → 44
    assert_eq!(tracker.drift_frames(1_000_010, 0), 44);
}

#[test]
fn domain_conversions_roundtrip() {
    let offset = 100i64;
    let local = 5_000_000u64;
    let controller = local_to_controller(local, offset);
    assert_eq!(controller, local + 100);
    assert_eq!(controller_to_local(controller, offset), local);
    let neg = -100i64;
    assert_eq!(controller_to_local(local, neg) as i64, local as i64 - neg);
    assert_eq!(local_to_controller(controller_to_local(local, neg), neg), local);
}

#[test]
fn domain_conversions_saturate_at_zero() {
    assert_eq!(controller_to_local(50, 100), 0);
    assert_eq!(local_to_controller(50, -100), 0);
    assert_eq!(local_to_controller(u64::MAX, 0), 0); // reads as -1 → clamped
    assert_eq!(exact_controller_to_local(1_000, 300), 700);
    assert_eq!(exact_local_to_controller(1_000, -300), 700);
}

#[test]
fn pts_tracker_ignores_frames_played_before_start() {
    let tracker = PtsTracker::new(1_000_000_000, 48_000);
    assert_eq!(tracker.drift_frames(500_000_000, 10), 0);
    assert_eq!(tracker.drift_frames(999_999_999, 48_000), 0);
}
