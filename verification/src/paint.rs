//! The boundary to the terminal cell buffer.
//!
//! The meter paints into ratatui's `Buffer`. To Verus the buffer is a grid
//! of cells: `buffer_span` names the rectangle it covers and `buffer_cells`
//! names, for each position, the cell's glyph (first character) and a
//! foreground color class (1 green, 2 yellow, 3 red, 0 anything else).
//! Three small trusted wrappers read the rectangle and write single cells;
//! everything that decides *which* cell gets *what* is verified code.

use vstd::prelude::*;

verus! {

#[verifier::external_type_specification]
#[verifier::external_body]
pub struct ExBuffer(ratatui::buffer::Buffer);

/// A foreground tone the meter paints bars and peak markers with.
#[derive(Clone, Copy, Debug, PartialEq, Eq, Structural)]
pub enum MeterColor {
    Green,
    Yellow,
    Red,
}

/// The abstract color class of a [`MeterColor`], as tracked per cell.
pub open spec fn color_code(c: MeterColor) -> u8 {
    match c {
        MeterColor::Green => 1u8,
        MeterColor::Yellow => 2u8,
        MeterColor::Red => 3u8,
    }
}

/// The glyph a filled bar cell or peak marker is painted with.
pub const BAR_GLYPH: char = '▉';

/// What the buffer holds: for each cell position inside its area, the
/// first character of the cell's glyph and its foreground color class.
pub uninterp spec fn buffer_cells(b: ratatui::buffer::Buffer) -> Map<(int, int), (char, u8)>;

/// The rectangle the buffer covers: x, y, width, height.
pub uninterp spec fn buffer_span(b: ratatui::buffer::Buffer) -> (u16, u16, u16, u16);

/// A cell position lies within a buffer rectangle. Mirrors ratatui's own
/// containment rule, whose right and bottom edges saturate at the `u16`
/// limit.
pub open spec fn span_contains(s: (u16, u16, u16, u16), x: int, y: int) -> bool {
    let right = if s.0 + s.2 > 0xFFFF {
        0xFFFF as int
    } else {
        s.0 + s.2
    };
    let bottom = if s.1 + s.3 > 0xFFFF {
        0xFFFF as int
    } else {
        s.1 + s.3
    };
    s.0 <= x < right && s.1 <= y < bottom
}

/// Every position inside a buffer rectangle has a tracked cell.
pub open spec fn span_covered(s: (u16, u16, u16, u16), cells: Map<(int, int), (char, u8)>) -> bool {
    forall|px: int, py: int| #[trigger]
        span_contains(s, px, py) ==> cells.dom().contains((px, py))
}

/// Relies on ratatui's `Buffer::area` field, and on its `content` holding
/// one cell for every position of that area: the rectangle of cells this
/// buffer covers.
#[verifier::external_body]
pub(crate) fn buffer_bounds(buf: &ratatui::buffer::Buffer) -> (r: (u16, u16, u16, u16))
    ensures
        r == buffer_span(*buf),
        span_covered(r, buffer_cells(*buf)),
{
    (buf.area.x, buf.area.y, buf.area.width, buf.area.height)
}

/// Relies on ratatui's `Buffer` indexing, `Cell::set_char` and
/// `Cell::set_fg`: paints one in-bounds cell with the bar glyph in the
/// given color.
#[verifier::external_body]
pub(crate) fn put_bar_cell(buf: &mut ratatui::buffer::Buffer, x: u16, y: u16, color: MeterColor)
    requires
        span_contains(buffer_span(*old(buf)), x as int, y as int),
    ensures
        buffer_span(*final(buf)) == buffer_span(*old(buf)),
        buffer_cells(*final(buf)) == buffer_cells(*old(buf)).insert(
            (x as int, y as int),
            (BAR_GLYPH, color_code(color)),
        ),
{
    let fg = match color {
        MeterColor::Green => ratatui::style::Color::Green,
        MeterColor::Yellow => ratatui::style::Color::Yellow,
        MeterColor::Red => ratatui::style::Color::Red,
    };
    buf[(x, y)].set_char(BAR_GLYPH).set_fg(fg);
}

/// Relies on ratatui's `Buffer` indexing and `Cell::set_char`: paints one
/// in-bounds cell's glyph, leaving its foreground color as it was.
#[verifier::external_body]
pub(crate) fn put_text_cell(buf: &mut ratatui::buffer::Buffer, x: u16, y: u16, glyph: char)
    requires
        span_contains(buffer_span(*old(buf)), x as int, y as int),
    ensures
        buffer_span(*final(buf)) == buffer_span(*old(buf)),
        buffer_cells(*final(buf)) == buffer_cells(*old(buf)).insert(
            (x as int, y as int),
            (glyph, buffer_cells(*old(buf))[(x as int, y as int)].1),
        ),
{
    buf[(x, y)].set_char(glyph);
}

} // verus!
