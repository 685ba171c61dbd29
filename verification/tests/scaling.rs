//! Tests of the decibel / amplitude / ratio conversions. Decibels are in
//! milli-dB, ratios and amplitudes in parts per million.

use level_meter::{MeterScale, MIN_DB_MILLI, RATIO_ONE_PPM};

#[test]
fn test_db_to_ratio_at_zero() {
    let ratio = MeterScale::db_to_ratio(0);
    assert_eq!(ratio, RATIO_ONE_PPM);
}

#[test]
fn test_db_to_ratio_at_min_db() {
    let ratio = MeterScale::db_to_ratio(MIN_DB_MILLI);
    assert_eq!(ratio, 0);
}

#[test]
fn test_db_to_ratio_below_min_db() {
    let ratio = MeterScale::db_to_ratio(MIN_DB_MILLI - 100_000);
    println!("ratio: {}", ratio);
    assert_eq!(ratio, 0);
}

#[test]
fn test_db_to_ratio_above_max_db() {
    let ratio = MeterScale::db_to_ratio(100);
    println!("ratio: {}", ratio);
    assert_eq!(ratio, RATIO_ONE_PPM);
}

#[test]
fn test_ratio_to_db_inverts_db_to_ratio() {
    for db in [-120_000i64, -60_000, -20_000, -6_000, 0] {
        let ratio = MeterScale::db_to_ratio(db);
        let db_back = MeterScale::ratio_to_db(ratio);
        assert!(
            (db - db_back).abs() < 1_000,
            "db: {}, db_back: {}",
            db,
            db_back
        );
    }
}

#[test]
fn test_sample_to_db_bounds() {
    assert_eq!(MeterScale::sample_to_db(0), None);
    assert_eq!(MeterScale::sample_to_db(1_000_000), Some(0));
    assert!(MeterScale::sample_to_db(1_000).unwrap() < -50_000);
}

#[test]
fn test_sample_to_ratio_zero() {
    let ratio = MeterScale::sample_to_ratio(0);
    assert_eq!(ratio, 0);
}

#[test]
fn test_sample_to_ratio_full_scale() {
    let ratio = MeterScale::sample_to_ratio(1_000_000);
    assert_eq!(ratio, RATIO_ONE_PPM);
}

#[test]
fn test_sample_to_ratio_invalid_above() {
    let ratio = MeterScale::sample_to_ratio(1_100_000);
    assert_eq!(ratio, RATIO_ONE_PPM);
}

#[test]
fn test_sample_to_ratio_invalid_below() {
    let ratio = MeterScale::sample_to_ratio(-100_000);
    assert_eq!(ratio, 0);
}

#[test]
fn test_sample_to_ratio_monotonicity() {
    let a = MeterScale::sample_to_ratio(10_000);
    let b = MeterScale::sample_to_ratio(100_000);
    let c = MeterScale::sample_to_ratio(1_000_000);
    assert!(a < b && b < c, "Ratios are not strictly increasing");
}

#[test]
fn test_ratio_range_bounds() {
    for s in [1_000i64, 10_000, 100_000, 500_000, 1_000_000] {
        let ratio = MeterScale::sample_to_ratio(s);
        assert!(ratio <= RATIO_ONE_PPM, "Ratio out of bounds: {}", ratio);
    }
}

#[test]
fn test_db_to_ratio_exact_quarter() {
    // Halfway down the decibel scale, the squared transform gives a
    // quarter of the bar: (60/120)^2 = 1/4.
    assert_eq!(MeterScale::db_to_ratio(-60_000), 250_000);
}

#[test]
fn test_ratio_to_db_exact_quarter() {
    assert_eq!(MeterScale::ratio_to_db(250_000), -60_000);
}

#[test]
fn test_color_zone_thresholds() {
    // The color zone boundaries derive from the -12 dB and -3 dB marks:
    // (108/120)^2 and (117/120)^2.
    assert_eq!(MeterScale::db_to_ratio(-12_000), 810_000);
    assert_eq!(MeterScale::db_to_ratio(-3_000), 950_625);
}

#[test]
fn test_db_to_ratio_monotone_samples() {
    let mut prev = MeterScale::db_to_ratio(-120_000);
    let mut db: i64 = -120_000;
    while db <= 0 {
        let r = MeterScale::db_to_ratio(db);
        assert!(r >= prev, "not monotone at {} milli-dB", db);
        prev = r;
        db += 1_500;
    }
}

#[test]
fn test_sample_to_db_near_minus_forty() {
    // An amplitude of 0.01 is -40 dB; the fixed-point logarithm lands
    // within a milli-dB of it.
    let db = MeterScale::sample_to_db(10_000).unwrap();
    assert!((db + 40_000).abs() <= 1, "db: {}", db);
}
