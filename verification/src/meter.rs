//! The meter widget configuration: channel count, current fill ratios and
//! display options, rebuilt by the caller each frame and immutable once
//! handed to the renderer.

use vstd::prelude::*;

use crate::constants::RATIO_ONE_PPM;
use crate::scaling::{db_ratio_spec, sample_ratio_spec, MeterScale};

verus! {

/// Loudness input for one render frame: one value for a mono meter, a left
/// and a right value for a stereo meter. The unit depends on the builder
/// method the input is given to: milli-dB for [`Meter::db`], parts per
/// million of full-scale amplitude for [`Meter::sample_amplitude`], and a
/// fill ratio in parts per million for [`Meter::ratio`].
#[derive(Clone, Debug)]
pub enum MeterInput {
    Mono(i64),
    Stereo(i64, i64),
}

/// A horizontal audio level meter.
///
/// Built with [`Meter::mono`] or [`Meter::stereo`], given a level through
/// [`Meter::db`], [`Meter::sample_amplitude`] or [`Meter::ratio`], and then
/// rendered into a rectangular region of a character-cell buffer.
#[derive(Clone, Debug, PartialEq)]
pub struct Meter {
    /// Current fill ratio per channel, in parts per million. The second
    /// entry is unused (zero) on a mono meter.
    pub ratio_ppm: [u32; 2],
    /// Number of channels: 1 (mono) or 2 (stereo).
    pub channels: usize,
    /// Whether a numeric decibel label row is drawn above each channel.
    pub show_labels: bool,
    /// Whether a decibel scale row is drawn below the bars.
    pub show_scale: bool,
}

impl Meter {
    /// The configuration is valid: a sane channel count and in-range
    /// ratios. Established by the constructors and kept by every builder
    /// method.
    pub open spec fn wf(&self) -> bool {
        &&& (self.channels == 1 || self.channels == 2)
        &&& self.ratio_ppm@[0] <= RATIO_ONE_PPM
        &&& self.ratio_ppm@[1] <= RATIO_ONE_PPM
    }

    /// The fill ratio of a channel, in parts per million.
    pub open spec fn level_spec(&self, channel: int) -> int {
        self.ratio_ppm@[if channel == 0 { 0int } else { 1int }] as int
    }

    /// Create a new mono meter, with labels and scale shown.
    pub fn mono() -> (m: Self)
        ensures
            m.wf(),
            m.channels == 1,
            m.ratio_ppm@ == seq![0u32, 0u32],
            m.show_labels,
            m.show_scale,
    {
        let m = Meter { ratio_ppm: [0, 0], channels: 1, show_labels: true, show_scale: true };
        proof {
            assert(m.ratio_ppm@ =~= seq![0u32, 0u32]);
        }
        m
    }

    /// Create a new stereo meter, with labels and scale shown.
    pub fn stereo() -> (m: Self)
        ensures
            m.wf(),
            m.channels == 2,
            m.ratio_ppm@ == seq![0u32, 0u32],
            m.show_labels,
            m.show_scale,
    {
        let m = Meter { ratio_ppm: [0, 0], channels: 2, show_labels: true, show_scale: true };
        proof {
            assert(m.ratio_ppm@ =~= seq![0u32, 0u32]);
        }
        m
    }

    /// The number of channels of this meter.
    pub fn channels(&self) -> (c: usize)
        ensures
            c == self.channels,
    {
        self.channels
    }

    /// The current fill ratio of a channel, in parts per million.
    pub fn level(&self, channel: usize) -> (r: u32)
        requires
            channel < 2,
        ensures
            r == self.level_spec(channel as int),
    {
        self.ratio_ppm[channel]
    }

    /// Show or hide the decibel label row above each channel.
    pub fn show_labels(self, show: bool) -> (m: Self)
        ensures
            m == (Meter { show_labels: show, ..self }),
    {
        Meter {
            ratio_ppm: self.ratio_ppm,
            channels: self.channels,
            show_labels: show,
            show_scale: self.show_scale,
        }
    }

    /// Show or hide the decibel scale row below the bars.
    pub fn show_scale(self, show: bool) -> (m: Self)
        ensures
            m == (Meter { show_scale: show, ..self }),
    {
        Meter {
            ratio_ppm: self.ratio_ppm,
            channels: self.channels,
            show_labels: self.show_labels,
            show_scale: show,
        }
    }

    /// Set the meter's level in milli-dB relative to full scale. Values
    /// above 0 dBFS or below the floor saturate; they are never an error.
    /// A mono input leaves the second channel at zero.
    pub fn db(self, input: MeterInput) -> (m: Self)
        ensures
            m.channels == self.channels,
            m.show_labels == self.show_labels,
            m.show_scale == self.show_scale,
            self.wf() ==> m.wf(),
            input matches MeterInput::Mono(d) ==> m.ratio_ppm@ == seq![
                db_ratio_spec(d as int) as u32,
                0u32,
            ],
            input matches MeterInput::Stereo(l, r) ==> m.ratio_ppm@ == seq![
                db_ratio_spec(l as int) as u32,
                db_ratio_spec(r as int) as u32,
            ],
    {
        let ratio_ppm: [u32; 2] = match input {
            MeterInput::Mono(d) => [MeterScale::db_to_ratio(d), 0],
            MeterInput::Stereo(l, r) => [MeterScale::db_to_ratio(l), MeterScale::db_to_ratio(r)],
        };
        let m = Meter {
            ratio_ppm,
            channels: self.channels,
            show_labels: self.show_labels,
            show_scale: self.show_scale,
        };
        proof {
            match input {
                MeterInput::Mono(d) => {
                    assert(m.ratio_ppm@ =~= seq![db_ratio_spec(d as int) as u32, 0u32]);
                },
                MeterInput::Stereo(l, r) => {
                    assert(m.ratio_ppm@ =~= seq![
                        db_ratio_spec(l as int) as u32,
                        db_ratio_spec(r as int) as u32,
                    ]);
                },
            }
        }
        m
    }

    /// Set the meter's level from a sample amplitude in parts per million
    /// of full scale. Amplitudes outside [0, full scale] saturate to
    /// silence or full scale respectively; they are never an error. A mono
    /// input leaves the second channel at zero.
    pub fn sample_amplitude(self, input: MeterInput) -> (m: Self)
        ensures
            m.channels == self.channels,
            m.show_labels == self.show_labels,
            m.show_scale == self.show_scale,
            self.wf() ==> m.wf(),
            input matches MeterInput::Mono(a) ==> m.ratio_ppm@ == seq![
                sample_ratio_spec(a as int) as u32,
                0u32,
            ],
            input matches MeterInput::Stereo(l, r) ==> m.ratio_ppm@ == seq![
                sample_ratio_spec(l as int) as u32,
                sample_ratio_spec(r as int) as u32,
            ],
    {
        let ratio_ppm: [u32; 2] = match input {
            MeterInput::Mono(a) => [MeterScale::sample_to_ratio(a), 0],
            MeterInput::Stereo(l, r) => [
                MeterScale::sample_to_ratio(l),
                MeterScale::sample_to_ratio(r),
            ],
        };
        let m = Meter {
            ratio_ppm,
            channels: self.channels,
            show_labels: self.show_labels,
            show_scale: self.show_scale,
        };
        proof {
            match input {
                MeterInput::Mono(a) => {
                    assert(m.ratio_ppm@ =~= seq![sample_ratio_spec(a as int) as u32, 0u32]);
                },
                MeterInput::Stereo(l, r) => {
                    assert(m.ratio_ppm@ =~= seq![
                        sample_ratio_spec(l as int) as u32,
                        sample_ratio_spec(r as int) as u32,
                    ]);
                },
            }
        }
        m
    }

    /// Set the meter's level directly as a fill ratio in parts per
    /// million. A ratio outside [0, full scale] is a caller error, not a
    /// loudness measurement, so it is rejected up front rather than
    /// silently clamped. A mono input leaves the second channel at zero.
    pub fn ratio(self, input: MeterInput) -> (m: Self)
        requires
            input matches MeterInput::Mono(r) ==> 0 <= r <= RATIO_ONE_PPM,
            input matches MeterInput::Stereo(l, r) ==> 0 <= l <= RATIO_ONE_PPM && 0 <= r
                <= RATIO_ONE_PPM,
        ensures
            m.channels == self.channels,
            m.show_labels == self.show_labels,
            m.show_scale == self.show_scale,
            self.wf() ==> m.wf(),
            input matches MeterInput::Mono(r) ==> m.ratio_ppm@ == seq![r as u32, 0u32],
            input matches MeterInput::Stereo(l, r) ==> m.ratio_ppm@ == seq![l as u32, r as u32],
    {
        let ratio_ppm: [u32; 2] = match input {
            MeterInput::Mono(r) => [r as u32, 0],
            MeterInput::Stereo(l, r) => [l as u32, r as u32],
        };
        let m = Meter {
            ratio_ppm,
            channels: self.channels,
            show_labels: self.show_labels,
            show_scale: self.show_scale,
        };
        proof {
            match input {
                MeterInput::Mono(r) => {
                    assert(m.ratio_ppm@ =~= seq![r as u32, 0u32]);
                },
                MeterInput::Stereo(l, r) => {
                    assert(m.ratio_ppm@ =~= seq![l as u32, r as u32]);
                },
            }
        }
        m
    }
}

} // verus!
