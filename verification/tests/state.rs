//! Tests of the peak-hold state machine.

use level_meter::MeterState;

#[test]
fn peak_hold_sequence() {
    // Ratios 0.2, 0.5, 0.1 on consecutive calls with no time passing:
    // the peak rises to 0.5 and is held there while the hold window is
    // open.
    let mut state = MeterState::new_at(0);
    state.update_peak(0, 200_000, 0);
    assert_eq!(state.peak_hold_ppm[0], 200_000);
    state.update_peak(0, 500_000, 0);
    assert_eq!(state.peak_hold_ppm[0], 500_000);
    state.update_peak(0, 100_000, 0);
    assert_eq!(state.peak_hold_ppm[0], 500_000);
}

#[test]
fn peak_decays_strictly_after_hold() {
    // Once the hold window has expired, every further call strictly
    // lowers the held peak.
    let mut state = MeterState::new_at(0);
    state.update_peak(0, 500_000, 0);
    let mut now: u64 = 1_500;
    let mut prev = state.peak_hold_ppm[0];
    for _ in 0..50 {
        state.update_peak(0, 0, now);
        let held = state.peak_hold_ppm[0];
        assert!(held < prev, "peak did not fall: {} -> {}", prev, held);
        prev = held;
        now += 100;
        if held == 0 {
            break;
        }
    }
}

#[test]
fn peak_decay_exact_step() {
    // At 2 s since the last rise the decay factor is 0.99 - 0.01 * 2 =
    // 0.97, so 0.5 decays to exactly 0.485.
    let mut state = MeterState::new_at(0);
    state.update_peak(0, 500_000, 0);
    state.update_peak(0, 100_000, 2_000);
    assert_eq!(state.peak_hold_ppm[0], 485_000);
}

#[test]
fn peak_decay_reaches_zero() {
    // The decay is a rounded-down multiplication, so an idle peak does
    // not linger forever: it reaches exactly zero.
    let mut state = MeterState::new_at(0);
    state.update_peak(0, 10, 0);
    let mut now: u64 = 2_000;
    for _ in 0..200 {
        state.update_peak(0, 0, now);
        now += 1_000;
    }
    assert_eq!(state.peak_hold_ppm[0], 0);
}

#[test]
fn peak_channels_are_independent() {
    let mut state = MeterState::new_at(0);
    state.update_peak(0, 300_000, 0);
    state.update_peak(1, 700_000, 0);
    assert_eq!(state.peak_hold_ppm[0], 300_000);
    assert_eq!(state.peak_hold_ppm[1], 700_000);
}

#[test]
fn peak_held_within_window_at_boundary() {
    // Exactly at the hold duration nothing decays yet; one millisecond
    // past it the decay starts.
    let mut state = MeterState::new_at(0);
    state.update_peak(0, 400_000, 0);
    state.update_peak(0, 0, 1_000);
    assert_eq!(state.peak_hold_ppm[0], 400_000);
    state.update_peak(0, 0, 1_001);
    assert!(state.peak_hold_ppm[0] < 400_000);
}

#[test]
fn state_default_is_fresh() {
    let state = MeterState::default();
    assert_eq!(state.peak_hold_ppm, [0, 0]);
    assert_eq!(state.last_peak_ms, [0, 0]);
    assert_eq!(state.peak_hold_ms, 1_000);
}
