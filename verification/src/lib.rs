//! A horizontal audio level meter for character-cell terminal displays.
//!
//! The meter turns a loudness value (decibels relative to full scale, a linear
//! sample amplitude, or a precomputed fill ratio) into a bar of colored block
//! glyphs, with an optional numeric decibel label per channel, an optional
//! peak-hold marker that decays over time, and an optional decibel scale row.
//!
//! All level arithmetic is exact fixed-point arithmetic: decibel values are
//! carried in thousandths of a decibel (milli-dB) and fill ratios in parts per
//! million, so every conversion and every painted cell has a precise contract.

pub mod constants;
pub mod meter;
pub mod paint;
pub mod rendering;
pub mod scaling;
pub mod state;

pub use constants::{MIN_DB_MILLI, RATIO_ONE_PPM};
pub use meter::{Meter, MeterInput};
pub use paint::MeterColor;
pub use rendering::MeterRect;
pub use scaling::MeterScale;
pub use state::MeterState;
