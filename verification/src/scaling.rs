//! Conversions between decibel values, sample amplitudes and fill ratios.
//!
//! The visual scale is nonlinear: a decibel value is first mapped to the
//! fraction of the way from the floor (`MIN_DB_MILLI`) to 0 dB, and that
//! fraction is then squared, which compresses the quiet end of the bar and
//! gives more resolution near full scale.
//!
//! Decibels are carried in milli-dB (`i64`), ratios in parts per million
//! (`u32`), so every conversion is exact integer arithmetic.

use vstd::arithmetic::div_mod::{
    lemma_div_is_ordered, lemma_div_multiples_vanish, lemma_div_pos_is_pos,
    lemma_fundamental_div_mod, lemma_multiply_divide_lt,
};
use vstd::arithmetic::mul::lemma_mul_inequality;
use vstd::arithmetic::power2::{
    lemma2_to64, lemma_pow2_pos, lemma_pow2_strictly_increases, lemma_pow2_unfold, pow2,
};
use vstd::prelude::*;

use crate::constants::{MIN_DB_MILLI, RATIO_ONE_PPM};

verus! {

/// Stateless conversions between the decibel, amplitude and ratio domains.
pub struct MeterScale {}

/// The squared span of the decibel scale, scaled so that the result of
/// `lin * lin / DB_SPAN_SQ_PER_PPM` is a ratio in parts per million when
/// `lin` is a milli-dB distance from the floor: `120_000^2 / 1_000_000`.
pub const DB_SPAN_SQ_PER_PPM: i64 = 14_400;

/// The fill ratio (in parts per million) of a decibel value, as drawn.
///
/// Inputs at or below the floor map to 0, inputs at or above 0 dB map to
/// full scale; in between, the fraction of the way from the floor to 0 dB
/// is squared.
pub open spec fn db_ratio_spec(db: int) -> int {
    if db <= MIN_DB_MILLI {
        0
    } else if db >= 0 {
        RATIO_ONE_PPM as int
    } else {
        (db - MIN_DB_MILLI) * (db - MIN_DB_MILLI) / (DB_SPAN_SQ_PER_PPM as int)
    }
}

/// `r` is the integer square root of `n`.
pub open spec fn is_floor_sqrt(n: int, r: int) -> bool {
    0 <= r && r * r <= n && n < (r + 1) * (r + 1)
}

/// The integer square root of `n` (0 for negative `n`).
pub open spec fn floor_sqrt(n: int) -> int
    decreases n,
{
    if n <= 0 {
        0
    } else {
        let r = floor_sqrt(n - 1);
        if (r + 1) * (r + 1) <= n {
            r + 1
        } else {
            r
        }
    }
}

/// The decibel value (milli-dB) whose drawn ratio is `r` parts per million:
/// the inverse of `db_ratio_spec`, up to the fixed-point granularity.
pub open spec fn ratio_db_spec(r: int) -> int {
    floor_sqrt(DB_SPAN_SQ_PER_PPM * r) + MIN_DB_MILLI
}

/// `floor_sqrt` really is the integer square root.
pub proof fn lemma_floor_sqrt_is_sqrt(n: int)
    requires
        n >= 0,
    ensures
        is_floor_sqrt(n, floor_sqrt(n)),
    decreases n,
{
    if n == 0 {
    } else {
        lemma_floor_sqrt_is_sqrt(n - 1);
        let r = floor_sqrt(n - 1);
        if (r + 1) * (r + 1) <= n {
            assert((r + 2) * (r + 2) > n) by (nonlinear_arith)
                requires
                    n - 1 < (r + 1) * (r + 1),
                    r >= 0,
            ;
        }
    }
}

/// The integer square root is unique: any `r` with `r^2 <= n < (r+1)^2`
/// equals `floor_sqrt(n)`.
pub proof fn lemma_floor_sqrt_unique(n: int, r: int)
    requires
        n >= 0,
        is_floor_sqrt(n, r),
    ensures
        r == floor_sqrt(n),
{
    lemma_floor_sqrt_is_sqrt(n);
    let s = floor_sqrt(n);
    assert(r == s) by (nonlinear_arith)
        requires
            0 <= r,
            0 <= s,
            r * r <= n,
            n < (r + 1) * (r + 1),
            s * s <= n,
            n < (s + 1) * (s + 1),
    ;
}

/// The integer square root of `n`, for `n` up to the squared decibel span.
fn isqrt64(n: u64) -> (r: u64)
    requires
        n <= 14_400_000_000,
    ensures
        is_floor_sqrt(n as int, r as int),
        r == floor_sqrt(n as int),
        r <= 120_000,
{
    let mut lo: u64 = 0;
    let mut hi: u64 = 120_001;
    // Binary search for the greatest root with lo^2 <= n.
    while lo + 1 < hi
        invariant
            lo < hi <= 120_001,
            lo * lo <= n,
            n < hi * hi,
        decreases hi - lo,
    {
        let mid = lo + (hi - lo) / 2;
        assert(mid * mid <= 120_001 * 120_001) by (nonlinear_arith)
            requires
                mid <= 120_001,
        ;
        if mid * mid <= n {
            lo = mid;
        } else {
            hi = mid;
        }
    }
    proof {
        lemma_floor_sqrt_unique(n as int, lo as int);
    }
    lo
}

impl MeterScale {
    /// Convert a decibel value (milli-dB relative to full scale) to a fill
    /// ratio in parts per million. Out-of-domain input saturates: values at
    /// or below the floor give 0, values at or above 0 dB give full scale.
    pub fn db_to_ratio(db: i64) -> (r: u32)
        ensures
            r == db_ratio_spec(db as int),
            r <= RATIO_ONE_PPM,
            db <= MIN_DB_MILLI ==> r == 0,
            db >= 0 ==> r == RATIO_ONE_PPM,
    {
        if db <= MIN_DB_MILLI {
            0
        } else if db >= 0 {
            RATIO_ONE_PPM
        } else {
            let lin: i64 = db - MIN_DB_MILLI;
            assert(lin * lin <= 119_999 * 119_999) by (nonlinear_arith)
                requires
                    0 < lin <= 119_999,
            ;
            let sq: i64 = lin * lin;
            let r: i64 = sq / DB_SPAN_SQ_PER_PPM;
            proof {
                lemma_div_is_ordered(sq as int, (119_999 * 119_999) as int, DB_SPAN_SQ_PER_PPM as int);
                lemma_div_pos_is_pos(sq as int, DB_SPAN_SQ_PER_PPM as int);
            }
            r as u32
        }
    }

    /// Convert a fill ratio (parts per million) back to the decibel value
    /// (milli-dB) it was drawn at, up to the fixed-point granularity. Used
    /// for the numeric label, not for layout.
    pub fn ratio_to_db(ratio: u32) -> (db: i64)
        requires
            ratio <= RATIO_ONE_PPM,
        ensures
            db == ratio_db_spec(ratio as int),
            MIN_DB_MILLI <= db <= 0,
            ratio == RATIO_ONE_PPM ==> db == 0,
            ratio == 0 ==> db == MIN_DB_MILLI,
    {
        assert(14_400 * (ratio as int) <= 14_400_000_000) by (nonlinear_arith)
            requires
                ratio <= 1_000_000,
        ;
        let scaled: u64 = (DB_SPAN_SQ_PER_PPM as u64) * (ratio as u64);
        let root = isqrt64(scaled);
        proof {
            if ratio == RATIO_ONE_PPM {
                assert(is_floor_sqrt(14_400_000_000, 120_000));
                lemma_floor_sqrt_unique(14_400_000_000, 120_000);
            }
            if ratio == 0 {
                assert(scaled == 0) by (nonlinear_arith)
                    requires
                        scaled == 14_400 * (ratio as int),
                        ratio == 0,
                ;
                assert(root * root <= 0);
                assert(root == 0) by (nonlinear_arith)
                    requires
                        root >= 0,
                        root * root <= 0,
                ;
            }
        }
        root as i64 + MIN_DB_MILLI
    }
}

/// Milli-dB per factor of two of amplitude (`20 * log10(2) * 1000`), scaled
/// by a further million so the Q24 binary logarithm below can be converted
/// with one integer multiplication and division.
pub const MILLI_DB_PER_OCTAVE_E6: u64 = 6_020_599_913;

/// `2^24 * 1_000_000`: the combined scale divided out when converting the
/// Q24 binary logarithm to milli-dB.
pub const Q24_TIMES_E6: u64 = 16_777_216_000_000;

/// The whole part of the binary logarithm of `a` (0 for `a < 2`).
pub open spec fn lg2(a: int) -> nat
    decreases a,
{
    if a < 2 {
        0
    } else {
        (1 + lg2(a / 2)) as nat
    }
}

/// One squaring step of the digit-by-digit binary logarithm: `y` is a Q32
/// fixed-point value in [1, 2); squaring it and renormalizing yields the
/// next value, and whether renormalization halved it is the next binary
/// digit of the logarithm's fraction.
pub open spec fn lg_sq(y: int) -> int {
    (y * y) / 0x1_0000_0000
}

/// The renormalized value after one squaring step.
pub open spec fn lg_step_y(y: int) -> int {
    if lg_sq(y) >= 0x2_0000_0000 {
        lg_sq(y) / 2
    } else {
        lg_sq(y)
    }
}

/// The binary digit produced by one squaring step.
pub open spec fn lg_step_bit(y: int) -> int {
    if lg_sq(y) >= 0x2_0000_0000 {
        1
    } else {
        0
    }
}

/// The Q32 value after `n` squaring steps from `y0`.
pub open spec fn lg_y_iter(y0: int, n: nat) -> int
    decreases n,
{
    if n == 0 {
        y0
    } else {
        lg_step_y(lg_y_iter(y0, (n - 1) as nat))
    }
}

/// The first `n` fraction bits of the binary logarithm of `y0` (Q32, in
/// [1, 2)), as an `n`-bit integer.
pub open spec fn lg_frac_iter(y0: int, n: nat) -> int
    decreases n,
{
    if n == 0 {
        0
    } else {
        2 * lg_frac_iter(y0, (n - 1) as nat) + lg_step_bit(lg_y_iter(y0, (n - 1) as nat))
    }
}

/// The decibel value (milli-dB) of an amplitude of `a` parts per million,
/// for `a` in [1, 999_999]: `20_000 * log10(a / 1_000_000)`, computed from
/// a 24-fraction-bit binary logarithm and capped at the 0 dB ceiling.
pub open spec fn amp_db_spec(a: int) -> int {
    let k = lg2(a);
    let y0 = (a * 0x1_0000_0000) / pow2(k) as int;
    let l = k * 0x100_0000 + lg_frac_iter(y0, 24);
    let g = (l * MILLI_DB_PER_OCTAVE_E6) / Q24_TIMES_E6 as int;
    let gc = if g > 120_000 {
        120_000 as int
    } else {
        g
    };
    gc + MIN_DB_MILLI
}

/// `lg2` brackets its argument between consecutive powers of two.
proof fn lemma_lg2_bracket(a: int)
    requires
        a >= 1,
    ensures
        pow2(lg2(a)) <= a < pow2(lg2(a) + 1),
    decreases a,
{
    lemma2_to64();
    if a < 2 {
    } else {
        lemma_lg2_bracket(a / 2);
        let l = lg2(a / 2);
        lemma_pow2_unfold(l + 1);
        lemma_pow2_unfold(l + 2);
    }
}

/// The bracket between consecutive powers of two determines `lg2`.
proof fn lemma_lg2_unique(a: int, k: nat)
    requires
        a >= 1,
        pow2(k) <= a < pow2(k + 1),
    ensures
        k == lg2(a),
{
    lemma_lg2_bracket(a);
    let l = lg2(a);
    if k < l {
        if k + 1 < l {
            lemma_pow2_strictly_increases(k + 1, l);
        }
        assert(pow2(k + 1) <= pow2(l));
    } else if l < k {
        if l + 1 < k {
            lemma_pow2_strictly_increases(l + 1, k);
        }
    }
}

/// The amplitude logarithm stays within the decibel scale: its result lies
/// in [floor, 0].
pub proof fn lemma_amp_db_range(a: int)
    requires
        1 <= a,
    ensures
        MIN_DB_MILLI <= amp_db_spec(a) <= 0,
{
    let k = lg2(a);
    let y0 = (a * 0x1_0000_0000) / pow2(k) as int;
    let l = k * 0x100_0000 + lg_frac_iter(y0, 24);
    lemma_lg_frac_bounds(y0, 24);
    let f = lg_frac_iter(y0, 24);
    lemma2_to64();
    assert(0 <= f < 0x100_0000);
    assert(l * MILLI_DB_PER_OCTAVE_E6 >= 0) by (nonlinear_arith)
        requires
            l >= 0,
    ;
    lemma_div_pos_is_pos(l * MILLI_DB_PER_OCTAVE_E6, Q24_TIMES_E6 as int);
}

/// The fraction accumulator of the binary logarithm always holds fewer
/// than `n` bits.
proof fn lemma_lg_frac_bounds(y0: int, n: nat)
    ensures
        0 <= lg_frac_iter(y0, n) < pow2(n),
    decreases n,
{
    lemma2_to64();
    if n == 0 {
    } else {
        lemma_lg_frac_bounds(y0, (n - 1) as nat);
        lemma_pow2_unfold(n);
    }
}

/// `lg2` is monotone.
proof fn lemma_lg2_monotone(a: int, b: int)
    requires
        1 <= a <= b,
    ensures
        lg2(a) <= lg2(b),
{
    lemma_lg2_bracket(a);
    lemma_lg2_bracket(b);
    if lg2(a) > lg2(b) {
        if lg2(b) + 1 < lg2(a) {
            lemma_pow2_strictly_increases(lg2(b) + 1, lg2(a));
        }
        assert(pow2(lg2(b) + 1) <= pow2(lg2(a)));
    }
}

/// One squaring step of the binary logarithm is monotone.
proof fn lemma_lg_sq_monotone(y: int, y2: int)
    requires
        0 <= y <= y2,
    ensures
        0 <= lg_sq(y) <= lg_sq(y2),
{
    assert(0 <= y * y <= y2 * y2) by (nonlinear_arith)
        requires
            0 <= y <= y2,
    ;
    lemma_div_is_ordered(y * y, y2 * y2, 0x1_0000_0000);
    lemma_div_pos_is_pos(y * y, 0x1_0000_0000);
}

/// The digit-by-digit binary logarithm is monotone: a larger normalized
/// value never produces a smaller fraction, and while the fractions are
/// still equal the running values stay ordered.
proof fn lemma_lg_iter_monotone(y: int, y2: int, n: nat)
    requires
        0 <= y <= y2,
    ensures
        0 <= lg_y_iter(y, n),
        lg_frac_iter(y, n) < lg_frac_iter(y2, n) || (lg_frac_iter(y, n) == lg_frac_iter(y2, n)
            && lg_y_iter(y, n) <= lg_y_iter(y2, n)),
    decreases n,
{
    if n == 0 {
    } else {
        lemma_lg_iter_monotone(y, y2, (n - 1) as nat);
        let ya = lg_y_iter(y, (n - 1) as nat);
        let yb = lg_y_iter(y2, (n - 1) as nat);
        let fa = lg_frac_iter(y, (n - 1) as nat);
        let fb = lg_frac_iter(y2, (n - 1) as nat);
        lemma_lg_sq_monotone(ya, ya);
        if fa == fb && ya <= yb {
            lemma_lg_sq_monotone(ya, yb);
            // A step can only produce a larger digit on the larger value:
            // its squared value is at least as large.
            assert(!(lg_step_bit(ya) == 1 && lg_step_bit(yb) == 0));
            if lg_step_bit(ya) == lg_step_bit(yb) {
                lemma_div_is_ordered(lg_sq(ya), lg_sq(yb), 2);
            }
        }
    }
}

/// The amplitude logarithm is monotone: a larger amplitude never maps to
/// a smaller decibel value.
proof fn lemma_amp_db_monotone(a: int, b: int)
    requires
        1 <= a <= b,
    ensures
        amp_db_spec(a) <= amp_db_spec(b),
{
    lemma2_to64();
    let ka = lg2(a);
    let kb = lg2(b);
    lemma_lg2_monotone(a, b);
    let y0a = (a * 0x1_0000_0000) / pow2(ka) as int;
    let y0b = (b * 0x1_0000_0000) / pow2(kb) as int;
    let fa = lg_frac_iter(y0a, 24);
    let fb = lg_frac_iter(y0b, 24);
    let la = ka * 0x100_0000 + fa;
    let lb = kb * 0x100_0000 + fb;
    lemma_pow2_pos(ka);
    lemma_pow2_pos(kb);
    lemma_div_pos_is_pos(a * 0x1_0000_0000, pow2(ka) as int);
    lemma_div_pos_is_pos(b * 0x1_0000_0000, pow2(kb) as int);
    lemma_lg_frac_bounds(y0a, 24);
    lemma_lg_frac_bounds(y0b, 24);
    if ka == kb {
        assert(a * 0x1_0000_0000 <= b * 0x1_0000_0000) by (nonlinear_arith)
            requires
                a <= b,
        ;
        lemma_div_is_ordered(a * 0x1_0000_0000, b * 0x1_0000_0000, pow2(ka) as int);
        lemma_lg_iter_monotone(y0a, y0b, 24);
        assert(la <= lb);
    } else {
        assert(ka + 1 <= kb);
        assert(la < (ka + 1) * 0x100_0000 <= kb * 0x100_0000 <= lb) by (nonlinear_arith)
            requires
                fa < 0x100_0000,
                0 <= fb,
                ka + 1 <= kb,
                la == ka * 0x100_0000 + fa,
                lb == kb * 0x100_0000 + fb,
        ;
    }
    lemma_mul_inequality(la, lb, MILLI_DB_PER_OCTAVE_E6 as int);
    lemma_div_is_ordered(
        la * (MILLI_DB_PER_OCTAVE_E6 as int),
        lb * (MILLI_DB_PER_OCTAVE_E6 as int),
        Q24_TIMES_E6 as int,
    );
}

/// The drawn ratio of a sample amplitude never leaves [0, full scale] and
/// is monotone non-decreasing: a larger amplitude never draws a shorter
/// bar. (Strict increases cannot be promised everywhere: neighboring
/// amplitudes can land on the same fixed-point decibel value.)
pub proof fn lemma_sample_to_ratio_monotonic(a: int, b: int)
    requires
        a <= b,
    ensures
        0 <= sample_ratio_spec(a) <= sample_ratio_spec(b) <= RATIO_ONE_PPM,
{
    if 0 < a < 1_000_000 {
        lemma_amp_db_range(a);
    }
    if 0 < b < 1_000_000 {
        lemma_amp_db_range(b);
    }
    if 0 < a < 1_000_000 && 0 < b < 1_000_000 {
        lemma_amp_db_monotone(a, b);
        lemma_db_to_ratio_monotonic(amp_db_spec(a), amp_db_spec(b));
    } else {
        if 0 < a < 1_000_000 {
            lemma_db_to_ratio_monotonic(amp_db_spec(a), 0);
        }
        if 0 < b < 1_000_000 {
            lemma_db_to_ratio_monotonic(amp_db_spec(b), 0);
            lemma_db_ratio_range(amp_db_spec(b));
        }
    }
}

impl MeterScale {
    /// Convert a sample amplitude, in parts per million of full scale, to a
    /// fill ratio in parts per million. Out-of-domain input saturates: a
    /// non-positive amplitude gives 0, an amplitude at or above full scale
    /// gives full scale. Agrees with `db_to_ratio` applied to the
    /// amplitude's decibel value at the fixed-point granularity.
    pub fn sample_to_ratio(amplitude_ppm: i64) -> (r: u32)
        ensures
            r == sample_ratio_spec(amplitude_ppm as int),
            r <= RATIO_ONE_PPM,
            amplitude_ppm <= 0 ==> r == 0,
            amplitude_ppm >= 1_000_000 ==> r == RATIO_ONE_PPM,
    {
        if amplitude_ppm <= 0 {
            0
        } else if amplitude_ppm >= 1_000_000 {
            RATIO_ONE_PPM
        } else {
            Self::db_to_ratio(amp_db(amplitude_ppm as u32))
        }
    }

    /// Convert a sample amplitude, in parts per million of full scale, to
    /// its decibel value in milli-dB, clamped to [floor, 0]. A non-positive
    /// amplitude has no finite decibel value and gives `None` (negative
    /// infinity on the decibel scale).
    pub fn sample_to_db(amplitude_ppm: i64) -> (db: Option<i64>)
        ensures
            amplitude_ppm <= 0 <==> db is None,
            amplitude_ppm >= 1_000_000 ==> db == Some(0i64),
            0 < amplitude_ppm < 1_000_000 ==> db == Some(
                amp_db_spec(amplitude_ppm as int) as i64,
            ),
            db is Some ==> MIN_DB_MILLI <= db->0 <= 0,
    {
        if amplitude_ppm <= 0 {
            None
        } else if amplitude_ppm >= 1_000_000 {
            Some(0)
        } else {
            Some(amp_db(amplitude_ppm as u32))
        }
    }
}

/// The fill ratio (in parts per million) drawn for a sample amplitude of
/// `a` parts per million: the amplitude's decibel value pushed through the
/// decibel-to-ratio transform, saturating outside (0, full scale).
pub open spec fn sample_ratio_spec(a: int) -> int {
    if a <= 0 {
        0
    } else if a >= 1_000_000 {
        RATIO_ONE_PPM as int
    } else {
        db_ratio_spec(amp_db_spec(a))
    }
}

/// The decibel value (milli-dB) of an amplitude in (0, full scale), by the
/// digit-by-digit binary logarithm.
fn amp_db(a: u32) -> (db: i64)
    requires
        1 <= a <= 999_999,
    ensures
        db == amp_db_spec(a as int),
        MIN_DB_MILLI <= db <= 0,
{
    proof {
        lemma2_to64();
        lemma_amp_db_range(a as int);
    }
    // Whole part of the binary logarithm: the power of two below `a`.
    let mut k: u64 = 0;
    let mut p: u64 = 1;
    while 2 * p <= (a as u64)
        invariant
            1 <= a <= 999_999,
            p == pow2(k as nat),
            p <= a as u64,
            k <= 19,
        decreases (a as int) - p,
    {
        proof {
            lemma2_to64();
            lemma_pow2_unfold((k + 1) as nat);
            if k + 1 >= 20 {
                if k + 1 > 20 {
                    lemma_pow2_strictly_increases(20, (k + 1) as nat);
                }
                assert(pow2(20) <= 2 * p);
                assert(false);
            }
        }
        p = 2 * p;
        k = k + 1;
    }
    proof {
        lemma_pow2_unfold((k + 1) as nat);
        lemma_lg2_unique(a as int, k as nat);
    }
    // Normalize to a Q32 value in [1, 2).
    let y0: u64 = ((a as u64) * 0x1_0000_0000) / p;
    proof {
        let ai = a as int;
        let pi = p as int;
        assert(pi * 0x1_0000_0000 <= ai * 0x1_0000_0000) by (nonlinear_arith)
            requires
                pi <= ai,
        ;
        lemma_div_multiples_vanish(0x1_0000_0000, pi);
        assert((pi * 0x1_0000_0000) / pi == 0x1_0000_0000);
        lemma_div_is_ordered(pi * 0x1_0000_0000, ai * 0x1_0000_0000, pi);
        assert(ai * 0x1_0000_0000 < pi * 0x2_0000_0000) by (nonlinear_arith)
            requires
                ai < 2 * pi,
        ;
        lemma_multiply_divide_lt(ai * 0x1_0000_0000, pi, 0x2_0000_0000);
    }
    // Pull out 24 fraction bits by repeated squaring.
    let ghost y0i = y0 as int;
    let mut y: u64 = y0;
    let mut frac: u64 = 0;
    let mut i: u64 = 0;
    while i < 24
        invariant
            y == lg_y_iter(y0i, i as nat),
            frac == lg_frac_iter(y0i, i as nat),
            0x1_0000_0000 <= y < 0x2_0000_0000,
            frac < pow2(i as nat),
            i <= 24,
        decreases 24 - i,
    {
        proof {
            lemma2_to64();
            lemma_pow2_unfold((i + 1) as nat);
        }
        assert(0x1_0000_0000_0000_0000 <= (y as int) * (y as int)
            < 0x4_0000_0000_0000_0000) by (nonlinear_arith)
            requires
                0x1_0000_0000 <= y < 0x2_0000_0000,
        ;
        let sq: u128 = (y as u128) * (y as u128);
        let t_wide: u128 = sq / 0x1_0000_0000;
        assert(t_wide < 0x4_0000_0000) by {
            lemma_multiply_divide_lt(sq as int, 0x1_0000_0000, 0x4_0000_0000);
        }
        assert(t_wide >= 0x1_0000_0000) by {
            lemma_div_is_ordered(
                0x1_0000_0000_0000_0000,
                sq as int,
                0x1_0000_0000,
            );
            lemma_div_multiples_vanish(0x1_0000_0000, 0x1_0000_0000);
        }
        let t: u64 = t_wide as u64;
        if t >= 0x2_0000_0000 {
            y = t / 2;
            frac = 2 * frac + 1;
        } else {
            y = t;
            frac = 2 * frac;
        }
        i = i + 1;
    }
    proof {
        lemma_lg_frac_bounds(y0i, 24);
        lemma2_to64();
    }
    // Combine whole and fraction bits (Q24) and rescale to milli-dB.
    let l: u64 = k * 0x100_0000 + frac;
    let wide: u64 = l * MILLI_DB_PER_OCTAVE_E6;
    proof {
        assert(l * (MILLI_DB_PER_OCTAVE_E6 as int) <= 0x1400_0000 * (
        MILLI_DB_PER_OCTAVE_E6 as int)) by (nonlinear_arith)
            requires
                l <= 0x1400_0000,
        ;
    }
    let g: u64 = wide / Q24_TIMES_E6;
    let gc: u64 = if g > 120_000 {
        120_000
    } else {
        g
    };
    gc as i64 - 120_000
}

/// The drawn ratio never leaves [0, full scale], and it is monotone: a louder
/// signal never draws a shorter bar.
pub proof fn lemma_db_to_ratio_monotonic(a: int, b: int)
    requires
        a <= b,
    ensures
        0 <= db_ratio_spec(a) <= db_ratio_spec(b) <= RATIO_ONE_PPM,
{
    lemma_db_ratio_range(a);
    lemma_db_ratio_range(b);
    if MIN_DB_MILLI < a && b < 0 {
        let la = a - MIN_DB_MILLI;
        let lb = b - MIN_DB_MILLI;
        lemma_mul_inequality(la, lb, la);
        lemma_mul_inequality(la, lb, lb);
        lemma_div_is_ordered(la * la, lb * lb, DB_SPAN_SQ_PER_PPM as int);
    }
}

/// The drawn ratio lies in [0, full scale].
pub proof fn lemma_db_ratio_range(db: int)
    ensures
        0 <= db_ratio_spec(db) <= RATIO_ONE_PPM,
{
    if MIN_DB_MILLI < db < 0 {
        let lin = db - MIN_DB_MILLI;
        assert(lin * lin <= 119_999 * 119_999) by (nonlinear_arith)
            requires
                0 < lin <= 119_999,
        ;
        lemma_mul_inequality(lin, lin, lin);
        lemma_div_pos_is_pos(lin * lin, DB_SPAN_SQ_PER_PPM as int);
        lemma_div_is_ordered(lin * lin, (119_999 * 119_999) as int, DB_SPAN_SQ_PER_PPM as int);
    }
}

/// Round trip: converting a decibel value in [floor, 0] to a ratio and back
/// recovers it to within 120 milli-dB (well under the 1 dB visual tolerance),
/// and never overshoots it.
pub proof fn lemma_db_round_trip(db: int)
    requires
        MIN_DB_MILLI <= db <= 0,
    ensures
        db - 120 <= ratio_db_spec(db_ratio_spec(db)) <= db,
{
    let span = DB_SPAN_SQ_PER_PPM as int;
    if db == MIN_DB_MILLI {
        assert(floor_sqrt(0) == 0);
    } else if db == 0 {
        assert(is_floor_sqrt(14_400_000_000, 120_000));
        lemma_floor_sqrt_unique(14_400_000_000, 120_000);
    } else {
        let lin = db - MIN_DB_MILLI;
        let r = lin * lin / span;
        assert(0 < lin * lin) by (nonlinear_arith)
            requires
                0 < lin,
        ;
        lemma_fundamental_div_mod(lin * lin, span);
        // span * r <= lin * lin < span * r + span
        let back = floor_sqrt(span * r);
        lemma_div_pos_is_pos(lin * lin, span);
        lemma_floor_sqrt_is_sqrt(span * r);
        // back <= lin, else back * back > lin * lin >= span * r.
        assert(back <= lin) by (nonlinear_arith)
            requires
                0 <= back,
                0 < lin,
                back * back <= span * r,
                span * r <= lin * lin,
                span == DB_SPAN_SQ_PER_PPM as int,
        ;
        // back >= lin - 120: otherwise (back + 1)^2 is too small to exceed
        // span * r, which is within span of lin^2.
        assert(lin - 120 <= back) by (nonlinear_arith)
            requires
                0 <= back,
                0 < lin <= 119_999,
                span * r < (back + 1) * (back + 1),
                lin * lin < span * r + span,
                span == 14_400,
        ;
    }
}

} // verus!
