use audio_recorder::detector::SilenceDetector;
use audio_recorder::energy::{frame_energy, isqrt};

#[test]
fn isqrt_rounds_down() {
    assert_eq!(isqrt(0), 0);
    assert_eq!(isqrt(1), 1);
    assert_eq!(isqrt(15), 3);
    assert_eq!(isqrt(16), 4);
    assert_eq!(isqrt(u64::MAX), 4294967295);
}

#[test]
fn energy_is_fixed_point_rms() {
    // mean square 12.5, times 65536 is 819200, whose root is 905.09
    assert_eq!(frame_energy(&[3, -4]), 905);
    assert_eq!(frame_energy(&[1000, -1000, 1000, -1000]), 256000);
    assert_eq!(frame_energy(&[]), 0);
    assert_eq!(frame_energy(&[0; 512]), 0);
}

#[test]
fn energy_of_loudest_frame() {
    assert_eq!(frame_energy(&[i16::MIN; 1024]), 0x80_0000);
}

#[test]
fn zero_frames_are_all_noise() {
    let mut d = SilenceDetector::new();
    let frame = vec![0i16; 512];
    for _ in 0..50 {
        let (silent, average) = d.observe(&frame);
        assert!(!silent);
        assert_eq!(average, 0);
    }
}

#[test]
fn first_frame_is_noise() {
    let mut d = SilenceDetector::new();
    let (silent, average) = d.observe(&[1000, -1000]);
    assert!(!silent);
    assert_eq!(average, 25600);
}

#[test]
fn constant_signal_converges_and_stays_noise() {
    let mut d = SilenceDetector::new();
    let frame = vec![1000i16; 64];
    let mut previous = 0u64;
    for _ in 0..300 {
        let (silent, average) = d.observe(&frame);
        assert!(!silent);
        assert!(average >= previous);
        assert!(average <= 256000);
        previous = average;
    }
    assert_eq!(d.average(), 256000);
}

#[test]
fn update_uses_ceiling() {
    let mut d = SilenceDetector::new();
    // energy 905: (905 + 0 + 9) / 10 = 91
    let (_, average) = d.observe(&[3, -4]);
    assert_eq!(average, 91);
}

#[test]
fn quiet_after_loud_is_silence() {
    let mut d = SilenceDetector::new();
    for _ in 0..30 {
        d.observe(&[1000, -1000, 1000, -1000]);
    }
    let (silent, _) = d.observe(&[10, -10, 10, -10]);
    assert!(silent);
    let (silent, _) = d.observe(&[0, 0, 0, 0]);
    assert!(silent);
}

#[test]
fn loud_after_quiet_is_noise() {
    let mut d = SilenceDetector::new();
    for _ in 0..30 {
        d.observe(&[10, -10]);
    }
    let (silent, _) = d.observe(&[2000, -2000]);
    assert!(!silent);
}
