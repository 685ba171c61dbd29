//! Peak-hold state: the highest recently seen ratio per channel, held for a
//! configurable time and then decayed a little on every further render call.

use vstd::arithmetic::div_mod::{lemma_div_is_ordered, lemma_div_multiples_vanish,
    lemma_div_pos_is_pos, lemma_multiply_divide_lt};
use vstd::arithmetic::mul::{lemma_mul_inequality, lemma_mul_is_commutative};
use vstd::prelude::*;

use crate::constants::{DEFAULT_PEAK_HOLD_MS, RATIO_ONE_PPM};

verus! {

/// Per-channel peak-hold record.
///
/// The caller owns one of these across frames and passes it into every
/// render call; the renderer updates it in place. Ratios are in parts per
/// million, times in milliseconds on whatever monotone clock the caller
/// uses (only differences of the clock values matter).
#[derive(Clone, Debug)]
pub struct MeterState {
    /// Held peak ratio per channel, in parts per million.
    pub peak_hold_ppm: [u32; 2],
    /// Clock reading (ms) when each channel's peak last rose.
    pub last_peak_ms: [u64; 2],
    /// How long (ms) a peak is held before it starts to decay.
    pub peak_hold_ms: u64,
}

/// Time elapsed between two clock readings; a clock that moved backwards
/// counts as no time passed.
pub open spec fn elapsed_spec(now: int, last: int) -> int {
    if now >= last {
        now - last
    } else {
        0
    }
}

/// The per-call decay multiplier (parts per million) once the hold window
/// has expired: `0.99 - 0.01 * elapsed_seconds`, kept within [0.1, 0.99],
/// so decay speeds up the longer the peak has been stale.
pub open spec fn decay_factor_spec(elapsed_ms: int) -> int {
    if elapsed_ms >= 89_000 {
        100_000
    } else {
        990_000 - 10 * elapsed_ms
    }
}

/// One decay application: the held ratio scaled by the decay factor,
/// rounded down (so a held peak eventually reaches exactly zero).
pub open spec fn decayed_spec(held: int, elapsed_ms: int) -> int {
    held * decay_factor_spec(elapsed_ms) / 1_000_000
}

/// The held ratio after one render call: a rising input replaces the peak
/// at once; otherwise the peak is kept until the hold window expires and
/// decays after that.
pub open spec fn peak_step_held(held: int, last: int, hold: int, ratio: int, now: int) -> int {
    if ratio > held {
        ratio
    } else if elapsed_spec(now, last) > hold {
        decayed_spec(held, elapsed_spec(now, last))
    } else {
        held
    }
}

/// The peak timestamp after one render call: reset exactly when the peak
/// rises.
pub open spec fn peak_step_last(held: int, last: int, hold: int, ratio: int, now: int) -> int {
    if ratio > held {
        now
    } else {
        last
    }
}

impl MeterState {
    /// The held ratios are valid fill ratios.
    pub open spec fn wf(&self) -> bool {
        self.peak_hold_ppm@[0] <= RATIO_ONE_PPM && self.peak_hold_ppm@[1] <= RATIO_ONE_PPM
    }

    /// The held ratio of a channel (parts per million).
    pub open spec fn held_spec(&self, channel: int) -> int {
        self.peak_hold_ppm@[if channel == 0 { 0int } else { 1int }] as int
    }

    /// The clock reading at which a channel's peak last rose.
    pub open spec fn last_spec(&self, channel: int) -> int {
        self.last_peak_ms@[if channel == 0 { 0int } else { 1int }] as int
    }

    /// Fresh state at clock reading `now_ms`: no peak held on either
    /// channel, with the default one-second hold window.
    pub fn new_at(now_ms: u64) -> (s: Self)
        ensures
            s.wf(),
            s.peak_hold_ppm@ == seq![0u32, 0u32],
            s.last_peak_ms@ == seq![now_ms, now_ms],
            s.peak_hold_ms == DEFAULT_PEAK_HOLD_MS,
    {
        let s = MeterState {
            peak_hold_ppm: [0, 0],
            last_peak_ms: [now_ms, now_ms],
            peak_hold_ms: DEFAULT_PEAK_HOLD_MS,
        };
        proof {
            assert(s.peak_hold_ppm@ =~= seq![0u32, 0u32]);
            assert(s.last_peak_ms@ =~= seq![now_ms, now_ms]);
        }
        s
    }

    /// Advance one channel's peak-hold state for a render call that sees
    /// fill ratio `ratio_ppm` at clock reading `now_ms`.
    pub fn update_peak(&mut self, channel: usize, ratio_ppm: u32, now_ms: u64)
        requires
            channel < 2,
            ratio_ppm <= RATIO_ONE_PPM,
            old(self).wf(),
        ensures
            final(self).wf(),
            final(self).peak_hold_ms == old(self).peak_hold_ms,
            final(self).held_spec(channel as int) == peak_step_held(
                old(self).held_spec(channel as int),
                old(self).last_spec(channel as int),
                old(self).peak_hold_ms as int,
                ratio_ppm as int,
                now_ms as int,
            ),
            final(self).last_spec(channel as int) == peak_step_last(
                old(self).held_spec(channel as int),
                old(self).last_spec(channel as int),
                old(self).peak_hold_ms as int,
                ratio_ppm as int,
                now_ms as int,
            ),
            final(self).held_spec(1 - channel as int) == old(self).held_spec(1 - channel as int),
            final(self).last_spec(1 - channel as int) == old(self).last_spec(1 - channel as int),
    {
        let held: u32 = self.peak_hold_ppm[channel];
        let last: u64 = self.last_peak_ms[channel];
        let elapsed: u64 = if now_ms >= last {
            now_ms - last
        } else {
            0
        };
        if ratio_ppm > held {
            self.peak_hold_ppm[channel] = ratio_ppm;
            self.last_peak_ms[channel] = now_ms;
        } else if elapsed > self.peak_hold_ms {
            let factor: u64 = if elapsed >= 89_000 {
                100_000
            } else {
                990_000 - 10 * elapsed
            };
            proof {
                assert((held as int) * (factor as int) <= 1_000_000 * 1_000_000) by (nonlinear_arith)
                    requires
                        held <= 1_000_000,
                        factor <= 1_000_000,
                ;
            }
            let scaled: u64 = (held as u64) * factor;
            let decayed64: u64 = scaled / 1_000_000;
            proof {
                lemma_mul_inequality(factor as int, 1_000_000, held as int);
                lemma_mul_is_commutative(held as int, factor as int);
                lemma_div_is_ordered(scaled as int, 1_000_000 * (held as int), 1_000_000);
                lemma_div_multiples_vanish(held as int, 1_000_000);
            }
            let decayed: u32 = decayed64 as u32;
            self.peak_hold_ppm[channel] = decayed;
        }
    }
}

impl Default for MeterState {
    /// Fresh state at clock reading 0: equivalent to `new_at(0)`.
    fn default() -> (s: Self)
        ensures
            s.wf(),
            s.peak_hold_ppm@ == seq![0u32, 0u32],
            s.last_peak_ms@ == seq![0u64, 0u64],
            s.peak_hold_ms == DEFAULT_PEAK_HOLD_MS,
    {
        MeterState::new_at(0)
    }
}

/// The peak-hold transition law: a rising input replaces the held peak at
/// once; a quieter input within the hold window leaves it untouched; and
/// once the hold window has expired, every further call strictly lowers a
/// still-positive peak (and a zero peak stays zero).
pub proof fn lemma_peak_hold_step(held: int, last: int, hold: int, ratio: int, now: int)
    requires
        0 <= held,
        0 <= ratio,
    ensures
        ratio > held ==> peak_step_held(held, last, hold, ratio, now) == ratio,
        ratio <= held && elapsed_spec(now, last) <= hold ==> peak_step_held(
            held,
            last,
            hold,
            ratio,
            now,
        ) == held,
        ratio <= held && elapsed_spec(now, last) > hold && held > 0 ==> peak_step_held(
            held,
            last,
            hold,
            ratio,
            now,
        ) < held,
        ratio <= held && elapsed_spec(now, last) > hold ==> 0 <= peak_step_held(
            held,
            last,
            hold,
            ratio,
            now,
        ) <= held,
{
    if ratio <= held && elapsed_spec(now, last) > hold {
        let e = elapsed_spec(now, last);
        let f = decay_factor_spec(e);
        assert(100_000 <= f <= 990_000);
        if held > 0 {
            assert(held * f < 1_000_000 * held) by (nonlinear_arith)
                requires
                    0 < held,
                    0 < f < 1_000_000,
            ;
            lemma_multiply_divide_lt(held * f, 1_000_000, held);
            assert(held * f >= 0) by (nonlinear_arith)
                requires
                    0 <= held,
                    0 <= f,
            ;
            lemma_div_pos_is_pos(held * f, 1_000_000);
        } else {
            assert(decayed_spec(0, e) == 0 * f / 1_000_000);
            assert(0 * f == 0) by (nonlinear_arith);
        }
    }
}

} // verus!
