//! Tests of the meter builder: channel handling and level conversion.

use level_meter::{Meter, MeterInput, RATIO_ONE_PPM};

#[test]
fn meter_db_zero() {
    let meter = Meter::mono().db(MeterInput::Mono(0));
    assert_eq!(meter.ratio_ppm[0], RATIO_ONE_PPM)
}

#[test]
fn meter_db_upper_bound() {
    let meter = Meter::mono().db(MeterInput::Mono(100));
    assert_eq!(meter.ratio_ppm[0], RATIO_ONE_PPM)
}

#[test]
fn meter_db_lower_bound() {
    let meter = Meter::mono().db(MeterInput::Mono(-130_000));
    assert_eq!(meter.ratio_ppm[0], 0);
}

#[test]
fn meter_stereo_db() {
    let meter = Meter::stereo().db(MeterInput::Stereo(0, 0));
    assert_eq!(meter.ratio_ppm[0], RATIO_ONE_PPM);
    assert_eq!(meter.ratio_ppm[1], RATIO_ONE_PPM);
}

#[test]
fn meter_stereo_sample_amplitudes() {
    let meter = Meter::stereo().sample_amplitude(MeterInput::Stereo(1_000_000, 0));
    assert_eq!(meter.ratio_ppm[0], RATIO_ONE_PPM);
    assert_eq!(meter.ratio_ppm[1], 0);
}

#[test]
fn meter_sample_amplitude_saturates() {
    // Out-of-domain amplitudes clamp to the nearest boundary instead of
    // failing.
    let meter = Meter::stereo().sample_amplitude(MeterInput::Stereo(1_500_000, -10));
    assert_eq!(meter.ratio_ppm[0], RATIO_ONE_PPM);
    assert_eq!(meter.ratio_ppm[1], 0);
}

#[test]
fn meter_mono_clears_second_channel() {
    let meter = Meter::stereo()
        .ratio(MeterInput::Stereo(300_000, 400_000))
        .ratio(MeterInput::Mono(200_000));
    assert_eq!(meter.ratio_ppm[0], 200_000);
    assert_eq!(meter.ratio_ppm[1], 0);
}

#[test]
fn meter_builder_flags() {
    let meter = Meter::mono().show_labels(false).show_scale(false);
    assert_eq!(meter.channels(), 1);
    assert!(!meter.show_labels);
    assert!(!meter.show_scale);
    let meter = Meter::stereo();
    assert_eq!(meter.channels(), 2);
    assert!(meter.show_labels);
    assert!(meter.show_scale);
}
