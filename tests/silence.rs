use audio_recorder::silence::{frame_duration_ms, SilenceTracker};

#[test]
fn frame_duration_truncates() {
    assert_eq!(frame_duration_ms(512, 16000), 32);
    assert_eq!(frame_duration_ms(441, 44100), 10);
    assert_eq!(frame_duration_ms(100, 44100), 2);
    assert_eq!(frame_duration_ms(0, 8000), 0);
    assert_eq!(frame_duration_ms(usize::MAX, 1), u64::MAX);
}

#[test]
fn silence_timeout_scenario() {
    let duration = frame_duration_ms(512, 16000);
    assert_eq!(duration, 32);
    let mut t = SilenceTracker::new(3000);
    let mut first_stop = None;
    for k in 1..=100u64 {
        let stop = t.record(true, duration);
        if stop && first_stop.is_none() {
            first_stop = Some(k);
        }
        if k < 94 {
            assert!(!stop);
        }
        if k == 94 {
            assert_eq!(t.silent_ms(), 3008);
        }
    }
    assert_eq!(first_stop, Some(94));
    assert_eq!(t.silent_ms(), 3200);
}

#[test]
fn noise_frame_resets_silence() {
    let mut t = SilenceTracker::new(0);
    for _ in 0..10 {
        t.record(true, 32);
    }
    assert_eq!(t.silent_ms(), 320);
    assert!(!t.record(false, 32));
    assert_eq!(t.silent_ms(), 0);
    t.record(true, 20);
    assert_eq!(t.silent_ms(), 20);
}

#[test]
fn zero_timeout_never_stops() {
    let mut t = SilenceTracker::new(0);
    for _ in 0..1000 {
        assert!(!t.record(true, 1000));
    }
    assert_eq!(t.silent_ms(), 1_000_000);
}

#[test]
fn stop_exactly_at_threshold() {
    let mut t = SilenceTracker::new(64);
    assert!(!t.record(true, 32));
    assert!(t.record(true, 32));
    let mut u = SilenceTracker::new(64);
    assert!(!u.record(true, 63));
    assert!(!u.record(false, 63));
    assert!(!u.record(true, 63));
}

#[test]
fn silence_counter_saturates() {
    let mut t = SilenceTracker::new(u64::MAX);
    assert!(!t.record(true, u64::MAX - 1));
    assert!(t.record(true, 10));
    assert_eq!(t.silent_ms(), u64::MAX);
}
