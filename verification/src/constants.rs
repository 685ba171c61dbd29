//! Fixed reference values of the meter scale.
//!
//! Decibel values are carried in milli-dB (thousandths of a decibel) and fill
//! ratios in parts per million, so the scale math stays exact integer
//! arithmetic.

use vstd::prelude::*;

verus! {

/// The decibel floor of the scale, in milli-dB: anything at or below
/// -120 dBFS is drawn as silence (ratio 0).
pub const MIN_DB_MILLI: i64 = -120_000;

/// A fill ratio of 1.0 expressed in parts per million.
pub const RATIO_ONE_PPM: u32 = 1_000_000;

/// The decibel mark where the bar color turns from green to yellow.
pub const YELLOW_START_DB_MILLI: i64 = -12_000;

/// The decibel mark where the bar color turns from yellow to red.
pub const RED_START_DB_MILLI: i64 = -3_000;

/// How long a peak is held before it starts to decay, in milliseconds.
pub const DEFAULT_PEAK_HOLD_MS: u64 = 1_000;

} // verus!
