//! Layout and painting: turns a configured meter, a target region, a
//! peak-hold state and a clock reading into painted cells.
//!
//! The region is stacked top to bottom: one optional decibel label row per
//! channel, one bar row per channel, and one optional scale row. Rows that
//! do not fit in the region are skipped, and every write is clipped to both
//! the region and the buffer, so rendering never fails: a degenerate region
//! simply paints nothing.

use vstd::arithmetic::mul::lemma_mul_inequality;
use vstd::arithmetic::div_mod::lemma_multiply_divide_lt;
use vstd::prelude::*;

use crate::constants::{RATIO_ONE_PPM, RED_START_DB_MILLI, YELLOW_START_DB_MILLI, MIN_DB_MILLI};
use crate::meter::Meter;
use crate::paint::{
    buffer_bounds, buffer_cells, buffer_span, color_code, put_bar_cell, put_text_cell,
    span_contains, span_covered, MeterColor, BAR_GLYPH,
};
use crate::scaling::{db_ratio_spec, ratio_db_spec, MeterScale};
use crate::state::{peak_step_held, peak_step_last, MeterState};

verus! {

/// A rectangular region of character cells: origin, width and height, in
/// cell coordinates of the buffer being painted.
#[derive(Clone, Copy, Debug, PartialEq, Eq, Structural)]
pub struct MeterRect {
    pub x: u16,
    pub y: u16,
    pub width: u16,
    pub height: u16,
}

/// The absolute x coordinate one past the right edge of a region.
pub open spec fn rect_end(a: MeterRect) -> int {
    a.x + a.width
}

/// The smaller of two values.
pub open spec fn min2(a: int, b: int) -> int {
    if a <= b {
        a
    } else {
        b
    }
}

/// How many cells of a row `width` cells wide a fill ratio covers:
/// `width * ratio`, rounded to the nearest cell.
pub open spec fn scaled_cells(width: int, ratio: int) -> int {
    (width * ratio + 500_000) / 1_000_000
}

/// The absolute x coordinate where the yellow zone begins, clamped so that
/// at least the two rightmost columns of the row can be yellow or red.
pub open spec fn yellow_start_spec(a: MeterRect) -> int {
    min2(
        a.x + scaled_cells(a.width as int, db_ratio_spec(YELLOW_START_DB_MILLI as int)),
        rect_end(a) - 2,
    )
}

/// The absolute x coordinate where the red zone begins, clamped so that at
/// least the rightmost column of the row can be red.
pub open spec fn red_start_spec(a: MeterRect) -> int {
    min2(
        a.x + scaled_cells(a.width as int, db_ratio_spec(RED_START_DB_MILLI as int)),
        rect_end(a) - 1,
    )
}

/// The color class of a bar cell at absolute column `x`: red at or right
/// of the red threshold, then yellow, then green. All channels share the
/// same thresholds.
pub open spec fn zone_code_spec(a: MeterRect, x: int) -> u8 {
    if x >= red_start_spec(a) {
        3u8
    } else if x >= yellow_start_spec(a) {
        2u8
    } else {
        1u8
    }
}

/// How many label rows precede the bar rows.
pub open spec fn rows_for_labels(m: Meter) -> int {
    if m.show_labels {
        m.channels as int
    } else {
        0
    }
}

/// How many rows of the region the meter paints into: label rows, bar
/// rows, and the scale row, as far as they fit.
pub open spec fn rows_used(m: Meter, a: MeterRect) -> int {
    min2(rows_for_labels(m) + m.channels + (if m.show_scale { 1int } else { 0int }), a.height as int)
}

/// The peak marker's absolute column for a held ratio: the fill extent,
/// kept inside the row.
pub open spec fn peak_x_spec(a: MeterRect, held: int) -> int {
    min2(a.x + scaled_cells(a.width as int, held), rect_end(a) - 1)
}

/// The cells painted by one channel's bar up to (but excluding) absolute
/// column `xlim`: every cell of row `y` from the region's left edge
/// through the fill extent `fill_x` that lies inside both the region and
/// the buffer, with the block glyph in its zone color.
pub open spec fn bar_map_upto(
    bspan: (u16, u16, u16, u16),
    a: MeterRect,
    y: int,
    fill_x: int,
    xlim: int,
) -> Map<(int, int), (char, u8)> {
    Map::new(
        |p: (int, int)|
            p.1 == y && a.x <= p.0 < rect_end(a) && p.0 <= fill_x && p.0 < xlim && span_contains(
                bspan,
                p.0,
                p.1,
            ),
        |p: (int, int)| (BAR_GLYPH, zone_code_spec(a, p.0)),
    )
}

/// The cells painted by one channel's bar.
pub open spec fn bar_map(bspan: (u16, u16, u16, u16), a: MeterRect, y: int, fill_x: int) -> Map<
    (int, int),
    (char, u8),
> {
    bar_map_upto(bspan, a, y, fill_x, rect_end(a))
}

/// The single cell painted by a peak marker at absolute column `px` of row
/// `y`, if it lies inside the buffer.
pub open spec fn peak_map(bspan: (u16, u16, u16, u16), a: MeterRect, y: int, px: int) -> Map<
    (int, int),
    (char, u8),
> {
    Map::new(
        |p: (int, int)| p == (px, y) && span_contains(bspan, p.0, p.1),
        |p: (int, int)| (BAR_GLYPH, zone_code_spec(a, p.0)),
    )
}

/// The cells painted by the first `jlim` characters of a text run starting
/// at absolute column `x0` of row `y`, clipped to the region's horizontal
/// extent and to the buffer. Text keeps the foreground color the cell
/// already had in `cells0`.
pub open spec fn text_map_upto(
    cells0: Map<(int, int), (char, u8)>,
    bspan: (u16, u16, u16, u16),
    a: MeterRect,
    y: int,
    x0: int,
    s: Seq<char>,
    jlim: int,
) -> Map<(int, int), (char, u8)> {
    Map::new(
        |p: (int, int)|
            p.1 == y && x0 <= p.0 < x0 + jlim && a.x <= p.0 < rect_end(a) && span_contains(
                bspan,
                p.0,
                p.1,
            ),
        |p: (int, int)| (s[p.0 - x0], cells0[p].1),
    )
}

/// The cells painted by a whole text run.
pub open spec fn text_map(
    cells0: Map<(int, int), (char, u8)>,
    bspan: (u16, u16, u16, u16),
    a: MeterRect,
    y: int,
    x0: int,
    s: Seq<char>,
) -> Map<(int, int), (char, u8)> {
    text_map_upto(cells0, bspan, a, y, x0, s, s.len() as int)
}

/// The decimal digit `d` as a character.
pub open spec fn digit_char(d: int) -> char {
    if d <= 0 {
        '0'
    } else if d == 1 {
        '1'
    } else if d == 2 {
        '2'
    } else if d == 3 {
        '3'
    } else if d == 4 {
        '4'
    } else if d == 5 {
        '5'
    } else if d == 6 {
        '6'
    } else if d == 7 {
        '7'
    } else if d == 8 {
        '8'
    } else {
        '9'
    }
}

/// The numeric label drawn for a decibel value (milli-dB): the value in
/// decibels with one decimal place (rounded half away from zero) and a
/// "dB" suffix, or a negative-infinity sentinel at or below the floor.
pub open spec fn db_label_chars(db: int) -> Seq<char> {
    if db <= MIN_DB_MILLI {
        seq!['-', '∞', ' ', 'd', 'B']
    } else {
        let m = if db < 0 {
            -db
        } else {
            db
        };
        let t = (m + 50) / 100;
        let whole = t / 10;
        let fr = t % 10;
        let digits = if whole >= 100 {
            seq![digit_char(whole / 100), digit_char((whole / 10) % 10), digit_char(whole % 10)]
        } else if whole >= 10 {
            seq![digit_char(whole / 10), digit_char(whole % 10)]
        } else {
            seq![digit_char(whole)]
        };
        let head = if db < 0 {
            seq!['-'] + digits
        } else {
            digits
        };
        head + seq!['.', digit_char(fr), ' ', 'd', 'B']
    }
}

/// The decimal digit `d` as a character.
fn digit_char_exec(d: i64) -> (c: char)
    requires
        0 <= d <= 9,
    ensures
        c == digit_char(d as int),
{
    if d == 0 {
        '0'
    } else if d == 1 {
        '1'
    } else if d == 2 {
        '2'
    } else if d == 3 {
        '3'
    } else if d == 4 {
        '4'
    } else if d == 5 {
        '5'
    } else if d == 6 {
        '6'
    } else if d == 7 {
        '7'
    } else if d == 8 {
        '8'
    } else {
        '9'
    }
}

/// Format the numeric decibel label for a label row.
pub fn format_db_label(db: i64) -> (v: Vec<char>)
    requires
        MIN_DB_MILLI <= db <= 0,
    ensures
        v@ == db_label_chars(db as int),
{
    let mut v: Vec<char> = Vec::new();
    if db <= MIN_DB_MILLI {
        v.push('-');
        v.push('∞');
        v.push(' ');
        v.push('d');
        v.push('B');
        proof {
            assert(v@ =~= db_label_chars(db as int));
        }
    } else {
        let m: i64 = -db;
        let t: i64 = (m + 50) / 100;
        let whole: i64 = t / 10;
        let fr: i64 = t % 10;
        if db < 0 {
            v.push('-');
        }
        if whole >= 100 {
            v.push(digit_char_exec(whole / 100));
            v.push(digit_char_exec((whole / 10) % 10));
            v.push(digit_char_exec(whole % 10));
        } else if whole >= 10 {
            v.push(digit_char_exec(whole / 10));
            v.push(digit_char_exec(whole % 10));
        } else {
            v.push(digit_char_exec(whole));
        }
        v.push('.');
        v.push(digit_char_exec(fr));
        v.push(' ');
        v.push('d');
        v.push('B');
        proof {
            assert(v@ =~= db_label_chars(db as int));
        }
    }
    v
}

/// How many cells a fill ratio covers in a row `width` cells wide.
fn scale_width(width: u16, ratio: u32) -> (n: u16)
    requires
        ratio <= RATIO_ONE_PPM,
    ensures
        n == scaled_cells(width as int, ratio as int),
        n <= width,
{
    proof {
        assert((width as int) * (ratio as int) <= 65_535 * 1_000_000) by (nonlinear_arith)
            requires
                width <= 65_535,
                ratio <= 1_000_000,
        ;
        assert((width as int) * (ratio as int) <= (width as int) * 1_000_000) by (nonlinear_arith)
            requires
                ratio <= 1_000_000,
                width >= 0,
        ;
    }
    let wide: u64 = (width as u64) * (ratio as u64) + 500_000;
    let n64: u64 = wide / 1_000_000;
    proof {
        assert(wide < 1_000_000 * ((width as int) + 1));
        lemma_multiply_divide_lt(wide as int, 1_000_000, (width as int) + 1);
    }
    n64 as u16
}

/// The color of a bar or peak cell at absolute column `x`, given the
/// zone thresholds.
fn pick_color(x: i64, ys: i64, rs: i64) -> (c: MeterColor)
    ensures
        color_code(c) == (if x >= rs {
            3u8
        } else if x >= ys {
            2u8
        } else {
            1u8
        }),
{
    if x >= rs {
        MeterColor::Red
    } else if x >= ys {
        MeterColor::Yellow
    } else {
        MeterColor::Green
    }
}

/// Whether a cell position lies inside a buffer rectangle.
fn span_has(s: (u16, u16, u16, u16), x: u32, y: u32) -> (b: bool)
    ensures
        b == span_contains(s, x as int, y as int),
{
    let right: u32 = if s.0 as u32 + s.2 as u32 > 0xFFFF {
        0xFFFF
    } else {
        s.0 as u32 + s.2 as u32
    };
    let bottom: u32 = if s.1 as u32 + s.3 as u32 > 0xFFFF {
        0xFFFF
    } else {
        s.1 as u32 + s.3 as u32
    };
    s.0 as u32 <= x && x < right && s.1 as u32 <= y && y < bottom
}

/// Paint one channel's bar row: every cell from the region's left edge
/// through the fill extent, clipped to the buffer.
fn paint_bar_row(
    buf: &mut ratatui::buffer::Buffer,
    a: MeterRect,
    bspan: (u16, u16, u16, u16),
    y: u32,
    fill_x: u32,
    ys: i64,
    rs: i64,
)
    requires
        bspan == buffer_span(*old(buf)),
        span_covered(bspan, buffer_cells(*old(buf))),
        ys == yellow_start_spec(a),
        rs == red_start_spec(a),
    ensures
        buffer_span(*final(buf)) == bspan,
        span_covered(bspan, buffer_cells(*final(buf))),
        buffer_cells(*final(buf)) == buffer_cells(*old(buf)).union_prefer_right(
            bar_map(bspan, a, y as int, fill_x as int),
        ),
{
    let end32: u32 = a.x as u32 + a.width as u32;
    let mut x: u32 = a.x as u32;
    proof {
        assert(buffer_cells(*buf) =~= buffer_cells(*old(buf)).union_prefer_right(
            bar_map_upto(bspan, a, y as int, fill_x as int, x as int),
        ));
    }
    while x < end32
        invariant
            buffer_span(*buf) == bspan,
            span_covered(bspan, buffer_cells(*buf)),
            a.x <= x <= end32,
            end32 == rect_end(a),
            ys == yellow_start_spec(a),
            rs == red_start_spec(a),
            buffer_cells(*buf) == buffer_cells(*old(buf)).union_prefer_right(
                bar_map_upto(bspan, a, y as int, fill_x as int, x as int),
            ),
        decreases end32 - x,
    {
        let ghost pre = buffer_cells(*buf);
        if x <= fill_x && span_has(bspan, x, y) {
            let c = pick_color(x as i64, ys, rs);
            put_bar_cell(buf, x as u16, y as u16, c);
            proof {
                assert(buffer_cells(*buf) =~= buffer_cells(*old(buf)).union_prefer_right(
                    bar_map_upto(bspan, a, y as int, fill_x as int, x + 1),
                ));
            }
        } else {
            proof {
                assert(bar_map_upto(bspan, a, y as int, fill_x as int, x + 1) =~= bar_map_upto(
                    bspan,
                    a,
                    y as int,
                    fill_x as int,
                    x as int,
                ));
            }
        }
        x = x + 1;
    }
    proof {
        assert(bar_map_upto(bspan, a, y as int, fill_x as int, x as int) =~= bar_map(
            bspan,
            a,
            y as int,
            fill_x as int,
        ));
    }
}

/// Paint the peak marker cell, if it lies inside the buffer.
fn paint_peak(
    buf: &mut ratatui::buffer::Buffer,
    a: MeterRect,
    bspan: (u16, u16, u16, u16),
    y: u32,
    px: u32,
    ys: i64,
    rs: i64,
)
    requires
        bspan == buffer_span(*old(buf)),
        span_covered(bspan, buffer_cells(*old(buf))),
        ys == yellow_start_spec(a),
        rs == red_start_spec(a),
    ensures
        buffer_span(*final(buf)) == bspan,
        span_covered(bspan, buffer_cells(*final(buf))),
        buffer_cells(*final(buf)) == buffer_cells(*old(buf)).union_prefer_right(
            peak_map(bspan, a, y as int, px as int),
        ),
{
    if span_has(bspan, px, y) {
        let c = pick_color(px as i64, ys, rs);
        put_bar_cell(buf, px as u16, y as u16, c);
        proof {
            assert(buffer_cells(*buf) =~= buffer_cells(*old(buf)).union_prefer_right(
                peak_map(bspan, a, y as int, px as int),
            ));
        }
    } else {
        proof {
            assert(buffer_cells(*buf) =~= buffer_cells(*old(buf)).union_prefer_right(
                peak_map(bspan, a, y as int, px as int),
            ));
        }
    }
}

/// Paint a text run from absolute column `x0` of row `y`, clipping each
/// character to the region and the buffer. The characters keep the
/// foreground color their cells already had.
fn paint_text(
    buf: &mut ratatui::buffer::Buffer,
    a: MeterRect,
    bspan: (u16, u16, u16, u16),
    y: u32,
    x0: i64,
    chars: &Vec<char>,
)
    requires
        bspan == buffer_span(*old(buf)),
        span_covered(bspan, buffer_cells(*old(buf))),
        -0x2_0000 <= x0 <= 0x2_0000,
        chars@.len() <= 16,
    ensures
        buffer_span(*final(buf)) == bspan,
        span_covered(bspan, buffer_cells(*final(buf))),
        buffer_cells(*final(buf)) == buffer_cells(*old(buf)).union_prefer_right(
            text_map(buffer_cells(*old(buf)), bspan, a, y as int, x0 as int, chars@),
        ),
{
    let ghost cells0 = buffer_cells(*old(buf));
    let end_i: i64 = a.x as i64 + a.width as i64;
    let mut j: usize = 0;
    proof {
        assert(buffer_cells(*buf) =~= cells0.union_prefer_right(
            text_map_upto(cells0, bspan, a, y as int, x0 as int, chars@, j as int),
        ));
    }
    while j < chars.len()
        invariant
            buffer_span(*buf) == bspan,
            span_covered(bspan, buffer_cells(*buf)),
            j <= chars@.len() <= 16,
            -0x2_0000 <= x0 <= 0x2_0000,
            end_i == rect_end(a),
            buffer_cells(*buf) == cells0.union_prefer_right(
                text_map_upto(cells0, bspan, a, y as int, x0 as int, chars@, j as int),
            ),
        decreases chars@.len() - j,
    {
        let xj: i64 = x0 + j as i64;
        let ghost k = (xj as int, y as int);
        if a.x as i64 <= xj && xj < end_i && span_has(bspan, xj as u32, y) {
            proof {
                // The cell has not been painted by this run yet, so its
                // tracked foreground is still the one from entry.
                assert(!text_map_upto(
                    cells0,
                    bspan,
                    a,
                    y as int,
                    x0 as int,
                    chars@,
                    j as int,
                ).dom().contains(k));
                assert(buffer_cells(*buf).dom().contains(k));
                assert(cells0.dom().contains(k));
                assert(buffer_cells(*buf)[k] == cells0[k]);
            }
            put_text_cell(buf, xj as u16, y as u16, chars[j]);
            proof {
                assert(buffer_cells(*buf) =~= cells0.union_prefer_right(
                    text_map_upto(cells0, bspan, a, y as int, x0 as int, chars@, j + 1),
                ));
            }
        } else {
            proof {
                assert(text_map_upto(cells0, bspan, a, y as int, x0 as int, chars@, j + 1)
                    =~= text_map_upto(cells0, bspan, a, y as int, x0 as int, chars@, j as int));
            }
        }
        j = j + 1;
    }
}

/// The cells painted by one scale mark: its text, positioned at the mark's
/// ratio along the row, shifted one cell left so multi-character labels
/// sit centered on their tick (`offset` undoes the shift for marks that
/// must sit flush, like the left edge).
pub open spec fn mark_cells_spec(
    cells: Map<(int, int), (char, u8)>,
    bspan: (u16, u16, u16, u16),
    a: MeterRect,
    y: int,
    s: Seq<char>,
    ratio: int,
    offset: int,
) -> Map<(int, int), (char, u8)> {
    cells.union_prefer_right(
        text_map(cells, bspan, a, y, a.x - 1 + offset + scaled_cells(a.width as int, ratio), s),
    )
}

/// The cells painted by the scale row: a subset of the canonical decibel
/// marks chosen by the row's width, each at its ratio position. Wider rows
/// show more marks; the negative-infinity and 0 dB marks are always kept.
pub open spec fn scale_cells_spec(
    cells: Map<(int, int), (char, u8)>,
    bspan: (u16, u16, u16, u16),
    a: MeterRect,
    y: int,
) -> Map<(int, int), (char, u8)> {
    if a.width > 50 {
        let c1 = mark_cells_spec(cells, bspan, a, y, seq!['-', '∞'], 0, 1);
        let c2 = mark_cells_spec(c1, bspan, a, y, seq!['-', '6', '0'], db_ratio_spec(-60_000), 0);
        let c3 = mark_cells_spec(c2, bspan, a, y, seq!['-', '4', '0'], db_ratio_spec(-40_000), 0);
        let c4 = mark_cells_spec(c3, bspan, a, y, seq!['-', '2', '4'], db_ratio_spec(-24_000), 0);
        let c5 = mark_cells_spec(c4, bspan, a, y, seq!['-', '1', '2'], db_ratio_spec(-12_000), 0);
        let c6 = mark_cells_spec(c5, bspan, a, y, seq!['-', '6'], db_ratio_spec(-6_000), 0);
        let c7 = mark_cells_spec(c6, bspan, a, y, seq!['-', '3'], db_ratio_spec(-3_000), 0);
        mark_cells_spec(c7, bspan, a, y, seq!['0'], db_ratio_spec(0), 0)
    } else if a.width > 35 {
        let c1 = mark_cells_spec(cells, bspan, a, y, seq!['-', '∞'], 0, 1);
        let c2 = mark_cells_spec(c1, bspan, a, y, seq!['-', '6', '0'], db_ratio_spec(-60_000), 0);
        let c3 = mark_cells_spec(c2, bspan, a, y, seq!['-', '4', '0'], db_ratio_spec(-40_000), 0);
        let c4 = mark_cells_spec(c3, bspan, a, y, seq!['-', '2', '4'], db_ratio_spec(-24_000), 0);
        let c5 = mark_cells_spec(c4, bspan, a, y, seq!['-', '1', '2'], db_ratio_spec(-12_000), 0);
        let c6 = mark_cells_spec(c5, bspan, a, y, seq!['-', '6'], db_ratio_spec(-6_000), 1);
        mark_cells_spec(c6, bspan, a, y, seq!['0'], db_ratio_spec(0), 0)
    } else if a.width > 20 {
        let c1 = mark_cells_spec(cells, bspan, a, y, seq!['-', '∞'], 0, 1);
        let c2 = mark_cells_spec(c1, bspan, a, y, seq!['-', '6', '0'], db_ratio_spec(-60_000), 0);
        let c3 = mark_cells_spec(c2, bspan, a, y, seq!['-', '3', '0'], db_ratio_spec(-30_000), 0);
        let c4 = mark_cells_spec(c3, bspan, a, y, seq!['-', '1', '2'], db_ratio_spec(-12_000), 0);
        mark_cells_spec(c4, bspan, a, y, seq!['0'], db_ratio_spec(0), 0)
    } else {
        let c1 = mark_cells_spec(cells, bspan, a, y, seq!['-', '∞'], 0, 1);
        let c2 = mark_cells_spec(c1, bspan, a, y, seq!['-', '6', '0'], db_ratio_spec(-60_000), 0);
        let c3 = mark_cells_spec(c2, bspan, a, y, seq!['-', '3', '0'], db_ratio_spec(-30_000), 0);
        mark_cells_spec(c3, bspan, a, y, seq!['0'], db_ratio_spec(0), 0)
    }
}

/// Paint one scale mark.
fn paint_mark(
    buf: &mut ratatui::buffer::Buffer,
    a: MeterRect,
    bspan: (u16, u16, u16, u16),
    y: u32,
    chars: &Vec<char>,
    ratio: u32,
    offset: i64,
)
    requires
        bspan == buffer_span(*old(buf)),
        span_covered(bspan, buffer_cells(*old(buf))),
        ratio <= RATIO_ONE_PPM,
        0 <= offset <= 1,
        chars@.len() <= 16,
    ensures
        buffer_span(*final(buf)) == bspan,
        span_covered(bspan, buffer_cells(*final(buf))),
        buffer_cells(*final(buf)) == mark_cells_spec(
            buffer_cells(*old(buf)),
            bspan,
            a,
            y as int,
            chars@,
            ratio as int,
            offset as int,
        ),
{
    let x0: i64 = a.x as i64 - 1 + offset + scale_width(a.width, ratio) as i64;
    paint_text(buf, a, bspan, y, x0, chars);
}

/// Paint the scale row.
fn render_scale_row(
    buf: &mut ratatui::buffer::Buffer,
    a: MeterRect,
    bspan: (u16, u16, u16, u16),
    y: u32,
)
    requires
        bspan == buffer_span(*old(buf)),
        span_covered(bspan, buffer_cells(*old(buf))),
    ensures
        buffer_span(*final(buf)) == bspan,
        span_covered(bspan, buffer_cells(*final(buf))),
        buffer_cells(*final(buf)) == scale_cells_spec(
            buffer_cells(*old(buf)),
            bspan,
            a,
            y as int,
        ),
{
    let inf_mark: Vec<char> = vec!['-', '∞'];
    let m60: Vec<char> = vec!['-', '6', '0'];
    let zero_mark: Vec<char> = vec!['0'];
    if a.width > 50 {
        let m40: Vec<char> = vec!['-', '4', '0'];
        let m24: Vec<char> = vec!['-', '2', '4'];
        let m12: Vec<char> = vec!['-', '1', '2'];
        let m6: Vec<char> = vec!['-', '6'];
        let m3: Vec<char> = vec!['-', '3'];
        paint_mark(buf, a, bspan, y, &inf_mark, 0, 1);
        paint_mark(buf, a, bspan, y, &m60, MeterScale::db_to_ratio(-60_000), 0);
        paint_mark(buf, a, bspan, y, &m40, MeterScale::db_to_ratio(-40_000), 0);
        paint_mark(buf, a, bspan, y, &m24, MeterScale::db_to_ratio(-24_000), 0);
        paint_mark(buf, a, bspan, y, &m12, MeterScale::db_to_ratio(-12_000), 0);
        paint_mark(buf, a, bspan, y, &m6, MeterScale::db_to_ratio(-6_000), 0);
        paint_mark(buf, a, bspan, y, &m3, MeterScale::db_to_ratio(-3_000), 0);
        paint_mark(buf, a, bspan, y, &zero_mark, MeterScale::db_to_ratio(0), 0);
    } else if a.width > 35 {
        let m40: Vec<char> = vec!['-', '4', '0'];
        let m24: Vec<char> = vec!['-', '2', '4'];
        let m12: Vec<char> = vec!['-', '1', '2'];
        let m6: Vec<char> = vec!['-', '6'];
        paint_mark(buf, a, bspan, y, &inf_mark, 0, 1);
        paint_mark(buf, a, bspan, y, &m60, MeterScale::db_to_ratio(-60_000), 0);
        paint_mark(buf, a, bspan, y, &m40, MeterScale::db_to_ratio(-40_000), 0);
        paint_mark(buf, a, bspan, y, &m24, MeterScale::db_to_ratio(-24_000), 0);
        paint_mark(buf, a, bspan, y, &m12, MeterScale::db_to_ratio(-12_000), 0);
        paint_mark(buf, a, bspan, y, &m6, MeterScale::db_to_ratio(-6_000), 1);
        paint_mark(buf, a, bspan, y, &zero_mark, MeterScale::db_to_ratio(0), 0);
    } else if a.width > 20 {
        let m30: Vec<char> = vec!['-', '3', '0'];
        let m12: Vec<char> = vec!['-', '1', '2'];
        paint_mark(buf, a, bspan, y, &inf_mark, 0, 1);
        paint_mark(buf, a, bspan, y, &m60, MeterScale::db_to_ratio(-60_000), 0);
        paint_mark(buf, a, bspan, y, &m30, MeterScale::db_to_ratio(-30_000), 0);
        paint_mark(buf, a, bspan, y, &m12, MeterScale::db_to_ratio(-12_000), 0);
        paint_mark(buf, a, bspan, y, &zero_mark, MeterScale::db_to_ratio(0), 0);
    } else {
        let m30: Vec<char> = vec!['-', '3', '0'];
        paint_mark(buf, a, bspan, y, &inf_mark, 0, 1);
        paint_mark(buf, a, bspan, y, &m60, MeterScale::db_to_ratio(-60_000), 0);
        paint_mark(buf, a, bspan, y, &m30, MeterScale::db_to_ratio(-30_000), 0);
        paint_mark(buf, a, bspan, y, &zero_mark, MeterScale::db_to_ratio(0), 0);
    }
}

/// The cells painted for one channel: its bar row (if it fits), then the
/// peak marker at the channel's newly held ratio, then its decibel label
/// row (if labels are on and the row fits).
pub open spec fn channel_cells_spec(
    cells: Map<(int, int), (char, u8)>,
    bspan: (u16, u16, u16, u16),
    m: Meter,
    a: MeterRect,
    ch: int,
    held_new: int,
) -> Map<(int, int), (char, u8)> {
    let level = m.level_spec(ch);
    let ybar = a.y + rows_for_labels(m) + ch;
    let fill = a.x + scaled_cells(a.width as int, level);
    let t1 = if rows_for_labels(m) + ch < a.height {
        cells.union_prefer_right(bar_map(bspan, a, ybar, fill))
    } else {
        cells
    };
    let t2 = if rows_for_labels(m) + ch < a.height {
        t1.union_prefer_right(peak_map(bspan, a, ybar, peak_x_spec(a, held_new)))
    } else {
        t1
    };
    if m.show_labels && ch < a.height {
        t2.union_prefer_right(
            text_map(t2, bspan, a, a.y + ch, a.x as int, db_label_chars(ratio_db_spec(level))),
        )
    } else {
        t2
    }
}

/// Everything one render call paints, in paint order: channel 0, then
/// channel 1 on a stereo meter, then the scale row if it is on and fits.
/// `st0` is the peak-hold state as it was when the call began.
pub open spec fn render_cells_spec(
    cells0: Map<(int, int), (char, u8)>,
    bspan: (u16, u16, u16, u16),
    m: Meter,
    a: MeterRect,
    st0: MeterState,
    now: int,
) -> Map<(int, int), (char, u8)> {
    let h0 = peak_step_held(
        st0.held_spec(0),
        st0.last_spec(0),
        st0.peak_hold_ms as int,
        m.level_spec(0),
        now,
    );
    let t1 = channel_cells_spec(cells0, bspan, m, a, 0, h0);
    let t2 = if m.channels == 2 {
        let h1 = peak_step_held(
            st0.held_spec(1),
            st0.last_spec(1),
            st0.peak_hold_ms as int,
            m.level_spec(1),
            now,
        );
        channel_cells_spec(t1, bspan, m, a, 1, h1)
    } else {
        t1
    };
    if m.show_scale && rows_for_labels(m) + m.channels < a.height {
        scale_cells_spec(t2, bspan, a, a.y + rows_for_labels(m) + m.channels)
    } else {
        t2
    }
}

/// A union with a map that does not touch `p` leaves `p` alone.
proof fn lemma_union_untouched(
    m1: Map<(int, int), (char, u8)>,
    m2: Map<(int, int), (char, u8)>,
    p: (int, int),
)
    requires
        !m2.dom().contains(p),
    ensures
        m1.union_prefer_right(m2).dom().contains(p) == m1.dom().contains(p),
        m1.dom().contains(p) ==> m1.union_prefer_right(m2)[p] == m1[p],
{
}

/// One scale mark never paints outside its row or the region's columns.
proof fn lemma_mark_confined(
    cells: Map<(int, int), (char, u8)>,
    bspan: (u16, u16, u16, u16),
    a: MeterRect,
    y: int,
    s: Seq<char>,
    ratio: int,
    offset: int,
    p: (int, int),
)
    requires
        !(a.x <= p.0 < rect_end(a) && p.1 == y),
    ensures
        mark_cells_spec(cells, bspan, a, y, s, ratio, offset).dom().contains(p) == cells.dom().contains(p),
        cells.dom().contains(p) ==> mark_cells_spec(cells, bspan, a, y, s, ratio, offset)[p] == cells[p],
{
    let x0 = a.x - 1 + offset + scaled_cells(a.width as int, ratio);
    lemma_union_untouched(cells, text_map(cells, bspan, a, y, x0, s), p);
}

/// The scale row never paints outside its row or the region's columns.
proof fn lemma_scale_confined(
    cells: Map<(int, int), (char, u8)>,
    bspan: (u16, u16, u16, u16),
    a: MeterRect,
    y: int,
    p: (int, int),
)
    requires
        !(a.x <= p.0 < rect_end(a) && p.1 == y),
    ensures
        scale_cells_spec(cells, bspan, a, y).dom().contains(p) == cells.dom().contains(p),
        cells.dom().contains(p) ==> scale_cells_spec(cells, bspan, a, y)[p] == cells[p],
{
    if a.width > 50 {
        let c1 = mark_cells_spec(cells, bspan, a, y, seq!['-', '∞'], 0, 1);
        let c2 = mark_cells_spec(c1, bspan, a, y, seq!['-', '6', '0'], db_ratio_spec(-60_000), 0);
        let c3 = mark_cells_spec(c2, bspan, a, y, seq!['-', '4', '0'], db_ratio_spec(-40_000), 0);
        let c4 = mark_cells_spec(c3, bspan, a, y, seq!['-', '2', '4'], db_ratio_spec(-24_000), 0);
        let c5 = mark_cells_spec(c4, bspan, a, y, seq!['-', '1', '2'], db_ratio_spec(-12_000), 0);
        let c6 = mark_cells_spec(c5, bspan, a, y, seq!['-', '6'], db_ratio_spec(-6_000), 0);
        let c7 = mark_cells_spec(c6, bspan, a, y, seq!['-', '3'], db_ratio_spec(-3_000), 0);
        lemma_mark_confined(cells, bspan, a, y, seq!['-', '∞'], 0, 1, p);
        lemma_mark_confined(c1, bspan, a, y, seq!['-', '6', '0'], db_ratio_spec(-60_000), 0, p);
        lemma_mark_confined(c2, bspan, a, y, seq!['-', '4', '0'], db_ratio_spec(-40_000), 0, p);
        lemma_mark_confined(c3, bspan, a, y, seq!['-', '2', '4'], db_ratio_spec(-24_000), 0, p);
        lemma_mark_confined(c4, bspan, a, y, seq!['-', '1', '2'], db_ratio_spec(-12_000), 0, p);
        lemma_mark_confined(c5, bspan, a, y, seq!['-', '6'], db_ratio_spec(-6_000), 0, p);
        lemma_mark_confined(c6, bspan, a, y, seq!['-', '3'], db_ratio_spec(-3_000), 0, p);
        lemma_mark_confined(c7, bspan, a, y, seq!['0'], db_ratio_spec(0), 0, p);
    } else if a.width > 35 {
        let c1 = mark_cells_spec(cells, bspan, a, y, seq!['-', '∞'], 0, 1);
        let c2 = mark_cells_spec(c1, bspan, a, y, seq!['-', '6', '0'], db_ratio_spec(-60_000), 0);
        let c3 = mark_cells_spec(c2, bspan, a, y, seq!['-', '4', '0'], db_ratio_spec(-40_000), 0);
        let c4 = mark_cells_spec(c3, bspan, a, y, seq!['-', '2', '4'], db_ratio_spec(-24_000), 0);
        let c5 = mark_cells_spec(c4, bspan, a, y, seq!['-', '1', '2'], db_ratio_spec(-12_000), 0);
        let c6 = mark_cells_spec(c5, bspan, a, y, seq!['-', '6'], db_ratio_spec(-6_000), 1);
        lemma_mark_confined(cells, bspan, a, y, seq!['-', '∞'], 0, 1, p);
        lemma_mark_confined(c1, bspan, a, y, seq!['-', '6', '0'], db_ratio_spec(-60_000), 0, p);
        lemma_mark_confined(c2, bspan, a, y, seq!['-', '4', '0'], db_ratio_spec(-40_000), 0, p);
        lemma_mark_confined(c3, bspan, a, y, seq!['-', '2', '4'], db_ratio_spec(-24_000), 0, p);
        lemma_mark_confined(c4, bspan, a, y, seq!['-', '1', '2'], db_ratio_spec(-12_000), 0, p);
        lemma_mark_confined(c5, bspan, a, y, seq!['-', '6'], db_ratio_spec(-6_000), 1, p);
        lemma_mark_confined(c6, bspan, a, y, seq!['0'], db_ratio_spec(0), 0, p);
    } else if a.width > 20 {
        let c1 = mark_cells_spec(cells, bspan, a, y, seq!['-', '∞'], 0, 1);
        let c2 = mark_cells_spec(c1, bspan, a, y, seq!['-', '6', '0'], db_ratio_spec(-60_000), 0);
        let c3 = mark_cells_spec(c2, bspan, a, y, seq!['-', '3', '0'], db_ratio_spec(-30_000), 0);
        let c4 = mark_cells_spec(c3, bspan, a, y, seq!['-', '1', '2'], db_ratio_spec(-12_000), 0);
        lemma_mark_confined(cells, bspan, a, y, seq!['-', '∞'], 0, 1, p);
        lemma_mark_confined(c1, bspan, a, y, seq!['-', '6', '0'], db_ratio_spec(-60_000), 0, p);
        lemma_mark_confined(c2, bspan, a, y, seq!['-', '3', '0'], db_ratio_spec(-30_000), 0, p);
        lemma_mark_confined(c3, bspan, a, y, seq!['-', '1', '2'], db_ratio_spec(-12_000), 0, p);
        lemma_mark_confined(c4, bspan, a, y, seq!['0'], db_ratio_spec(0), 0, p);
    } else {
        let c1 = mark_cells_spec(cells, bspan, a, y, seq!['-', '∞'], 0, 1);
        let c2 = mark_cells_spec(c1, bspan, a, y, seq!['-', '6', '0'], db_ratio_spec(-60_000), 0);
        let c3 = mark_cells_spec(c2, bspan, a, y, seq!['-', '3', '0'], db_ratio_spec(-30_000), 0);
        lemma_mark_confined(cells, bspan, a, y, seq!['-', '∞'], 0, 1, p);
        lemma_mark_confined(c1, bspan, a, y, seq!['-', '6', '0'], db_ratio_spec(-60_000), 0, p);
        lemma_mark_confined(c2, bspan, a, y, seq!['-', '3', '0'], db_ratio_spec(-30_000), 0, p);
        lemma_mark_confined(c3, bspan, a, y, seq!['0'], db_ratio_spec(0), 0, p);
    }
}

/// One channel's painting never leaves the region's columns or the rows
/// the meter uses.
proof fn lemma_channel_confined(
    cells: Map<(int, int), (char, u8)>,
    bspan: (u16, u16, u16, u16),
    m: Meter,
    a: MeterRect,
    ch: int,
    held_new: int,
    p: (int, int),
)
    requires
        m.wf(),
        0 <= ch < m.channels,
        0 <= held_new,
        a.width >= 1,
        !(a.x <= p.0 < rect_end(a) && a.y <= p.1 < a.y + rows_used(m, a)),
    ensures
        channel_cells_spec(cells, bspan, m, a, ch, held_new).dom().contains(p) == cells.dom().contains(p),
        cells.dom().contains(p) ==> channel_cells_spec(cells, bspan, m, a, ch, held_new)[p] == cells[p],
{
    let level = m.level_spec(ch);
    let ybar = a.y + rows_for_labels(m) + ch;
    let fill = a.x + scaled_cells(a.width as int, level);
    let t1 = if rows_for_labels(m) + ch < a.height {
        cells.union_prefer_right(bar_map(bspan, a, ybar, fill))
    } else {
        cells
    };
    let px = peak_x_spec(a, held_new);
    let t2 = if rows_for_labels(m) + ch < a.height {
        t1.union_prefer_right(peak_map(bspan, a, ybar, px))
    } else {
        t1
    };
    assert(0 <= (a.width as int) * held_new) by (nonlinear_arith)
        requires
            0 <= held_new,
            0 <= a.width,
    ;
    vstd::arithmetic::div_mod::lemma_div_pos_is_pos(
        (a.width as int) * held_new + 500_000,
        1_000_000,
    );
    if rows_for_labels(m) + ch < a.height {
        lemma_union_untouched(cells, bar_map(bspan, a, ybar, fill), p);
        lemma_union_untouched(t1, peak_map(bspan, a, ybar, px), p);
    }
    if m.show_labels && ch < a.height {
        lemma_union_untouched(
            t2,
            text_map(t2, bspan, a, a.y + ch, a.x as int, db_label_chars(ratio_db_spec(level))),
            p,
        );
    }
}

/// Rendering is confined: for a nonempty region, a render call touches no
/// cell outside the region's columns or outside the rows the meter lays
/// out (label rows, bar rows, scale row — as far as they fit). In
/// particular, a stereo meter with labels and scale off touches only its
/// two bar rows.
pub proof fn lemma_render_writes_confined(
    cells0: Map<(int, int), (char, u8)>,
    bspan: (u16, u16, u16, u16),
    m: Meter,
    a: MeterRect,
    st0: MeterState,
    now: int,
    p: (int, int),
)
    requires
        m.wf(),
        st0.wf(),
        a.width >= 1,
        !(a.x <= p.0 < rect_end(a) && a.y <= p.1 < a.y + rows_used(m, a)),
    ensures
        render_cells_spec(cells0, bspan, m, a, st0, now).dom().contains(p) == cells0.dom().contains(
            p,
        ),
        cells0.dom().contains(p) ==> render_cells_spec(cells0, bspan, m, a, st0, now)[p]
            == cells0[p],
{
    let h0 = peak_step_held(
        st0.held_spec(0),
        st0.last_spec(0),
        st0.peak_hold_ms as int,
        m.level_spec(0),
        now,
    );
    crate::state::lemma_peak_hold_step(
        st0.held_spec(0),
        st0.last_spec(0),
        st0.peak_hold_ms as int,
        m.level_spec(0),
        now,
    );
    let t1 = channel_cells_spec(cells0, bspan, m, a, 0, h0);
    lemma_channel_confined(cells0, bspan, m, a, 0, h0, p);
    let t2 = if m.channels == 2 {
        let h1 = peak_step_held(
            st0.held_spec(1),
            st0.last_spec(1),
            st0.peak_hold_ms as int,
            m.level_spec(1),
            now,
        );
        crate::state::lemma_peak_hold_step(
            st0.held_spec(1),
            st0.last_spec(1),
            st0.peak_hold_ms as int,
            m.level_spec(1),
            now,
        );
        lemma_channel_confined(t1, bspan, m, a, 1, h1, p);
        channel_cells_spec(t1, bspan, m, a, 1, h1)
    } else {
        t1
    };
    if m.show_scale && rows_for_labels(m) + m.channels < a.height {
        lemma_scale_confined(t2, bspan, a, a.y + rows_for_labels(m) + m.channels, p);
    }
}

impl Meter {
    /// Paint one channel's rows and advance its peak-hold state.
    fn render_channel(
        &self,
        area: MeterRect,
        buf: &mut ratatui::buffer::Buffer,
        state: &mut MeterState,
        now_ms: u64,
        ch: usize,
        bspan: (u16, u16, u16, u16),
        ys: i64,
        rs: i64,
        lr: usize,
    )
        requires
            self.wf(),
            old(state).wf(),
            ch < self.channels,
            area.width >= 1,
            bspan == buffer_span(*old(buf)),
            span_covered(bspan, buffer_cells(*old(buf))),
            ys == yellow_start_spec(area),
            rs == red_start_spec(area),
            lr == rows_for_labels(*self),
        ensures
            buffer_span(*final(buf)) == bspan,
            span_covered(bspan, buffer_cells(*final(buf))),
            final(state).wf(),
            final(state).peak_hold_ms == old(state).peak_hold_ms,
            final(state).held_spec(ch as int) == peak_step_held(
                old(state).held_spec(ch as int),
                old(state).last_spec(ch as int),
                old(state).peak_hold_ms as int,
                self.level_spec(ch as int),
                now_ms as int,
            ),
            final(state).last_spec(ch as int) == peak_step_last(
                old(state).held_spec(ch as int),
                old(state).last_spec(ch as int),
                old(state).peak_hold_ms as int,
                self.level_spec(ch as int),
                now_ms as int,
            ),
            final(state).held_spec(1 - ch as int) == old(state).held_spec(1 - ch as int),
            final(state).last_spec(1 - ch as int) == old(state).last_spec(1 - ch as int),
            buffer_cells(*final(buf)) == channel_cells_spec(
                buffer_cells(*old(buf)),
                bspan,
                *self,
                area,
                ch as int,
                final(state).held_spec(ch as int),
            ),
    {
        let level: u32 = self.level(ch);
        let bar_idx: usize = lr + ch;
        let yb: u32 = area.y as u32 + bar_idx as u32;
        if bar_idx < area.height as usize {
            let fill: u32 = area.x as u32 + scale_width(area.width, level) as u32;
            paint_bar_row(buf, area, bspan, yb, fill, ys, rs);
        }
        state.update_peak(ch, level, now_ms);
        let held_new: u32 = state.peak_hold_ppm[ch];
        if bar_idx < area.height as usize {
            let pk: u32 = area.x as u32 + scale_width(area.width, held_new) as u32;
            let pmax: u32 = area.x as u32 + area.width as u32 - 1;
            let px: u32 = if pk > pmax {
                pmax
            } else {
                pk
            };
            paint_peak(buf, area, bspan, yb, px, ys, rs);
        }
        if self.show_labels && ch < area.height as usize {
            let db = MeterScale::ratio_to_db(level);
            let label = format_db_label(db);
            proof {
                assert(label@.len() <= 16);
            }
            paint_text(buf, area, bspan, area.y as u32 + ch as u32, area.x as i64, &label);
        }
    }

    /// Render the meter into `area` of `buf`, advancing `state` with the
    /// clock reading `now_ms`.
    ///
    /// A region with zero width or height paints nothing and leaves the
    /// state untouched. Otherwise the buffer afterwards holds exactly the
    /// cells of [`render_cells_spec`], and each rendered channel's
    /// peak-hold state has taken one transition step; all writes stay
    /// inside the region and the buffer.
    pub fn render(
        &self,
        area: MeterRect,
        buf: &mut ratatui::buffer::Buffer,
        state: &mut MeterState,
        now_ms: u64,
    )
        requires
            self.wf(),
            old(state).wf(),
        ensures
            final(state).wf(),
            buffer_span(*final(buf)) == buffer_span(*old(buf)),
            final(state).peak_hold_ms == old(state).peak_hold_ms,
            (area.width == 0 || area.height == 0) ==> buffer_cells(*final(buf)) == buffer_cells(
                *old(buf),
            ) && *final(state) == *old(state),
            (area.width > 0 && area.height > 0) ==> buffer_cells(*final(buf)) == render_cells_spec(
                buffer_cells(*old(buf)),
                buffer_span(*old(buf)),
                *self,
                area,
                *old(state),
                now_ms as int,
            ),
            (area.width > 0 && area.height > 0) ==> final(state).held_spec(0) == peak_step_held(
                old(state).held_spec(0),
                old(state).last_spec(0),
                old(state).peak_hold_ms as int,
                self.level_spec(0),
                now_ms as int,
            ) && final(state).last_spec(0) == peak_step_last(
                old(state).held_spec(0),
                old(state).last_spec(0),
                old(state).peak_hold_ms as int,
                self.level_spec(0),
                now_ms as int,
            ),
            (area.width > 0 && area.height > 0 && self.channels == 2) ==> final(state).held_spec(1) == peak_step_held(
                old(state).held_spec(1),
                old(state).last_spec(1),
                old(state).peak_hold_ms as int,
                self.level_spec(1),
                now_ms as int,
            ) && final(state).last_spec(1) == peak_step_last(
                old(state).held_spec(1),
                old(state).last_spec(1),
                old(state).peak_hold_ms as int,
                self.level_spec(1),
                now_ms as int,
            ),
            (area.width > 0 && area.height > 0 && self.channels == 1) ==> final(state).held_spec(1) == old(state).held_spec(1) && final(state).last_spec(1) == old(state).last_spec(1),
    {
        if area.width == 0 || area.height == 0 {
            return ;
        }
        let bspan = buffer_bounds(buf);
        let yz: u16 = scale_width(area.width, MeterScale::db_to_ratio(YELLOW_START_DB_MILLI));
        let rz: u16 = scale_width(area.width, MeterScale::db_to_ratio(RED_START_DB_MILLI));
        let end_i: i64 = area.x as i64 + area.width as i64;
        let ys: i64 = if area.x as i64 + yz as i64 <= end_i - 2 {
            area.x as i64 + yz as i64
        } else {
            end_i - 2
        };
        let rs: i64 = if area.x as i64 + rz as i64 <= end_i - 1 {
            area.x as i64 + rz as i64
        } else {
            end_i - 1
        };
        let lr: usize = if self.show_labels {
            self.channels
        } else {
            0
        };
        self.render_channel(area, buf, state, now_ms, 0, bspan, ys, rs, lr);
        if self.channels == 2 {
            self.render_channel(area, buf, state, now_ms, 1, bspan, ys, rs, lr);
        }
        if self.show_scale && lr + self.channels < area.height as usize {
            let ysc: u32 = area.y as u32 + (lr + self.channels) as u32;
            render_scale_row(buf, area, bspan, ysc);
        }
    }
}

} // verus!
