//! Tests of the renderer: bar fill, color zones, peak marker, labels,
//! scale row, and graceful handling of degenerate regions.

use level_meter::{Meter, MeterInput, MeterRect, MeterState};
use ratatui::buffer::Buffer;
use ratatui::layout::Rect;
use ratatui::style::Color;

fn area(x: u16, y: u16, width: u16, height: u16) -> MeterRect {
    MeterRect {
        x,
        y,
        width,
        height,
    }
}

#[test]
fn render_full_mono_fills_all_columns() {
    // A mono meter at full scale into a width-60 row fills all 60
    // columns, and the rightmost two are red.
    let mut buf = Buffer::empty(Rect::new(0, 0, 60, 1));
    let mut state = MeterState::new_at(0);
    let meter = Meter::mono()
        .show_labels(false)
        .show_scale(false)
        .ratio(MeterInput::Mono(1_000_000));
    meter.render(area(0, 0, 60, 1), &mut buf, &mut state, 0);
    for x in 0..60u16 {
        assert_eq!(buf[(x, 0)].symbol(), "▉", "column {} not filled", x);
    }
    assert_eq!(buf[(58, 0)].fg, Color::Red);
    assert_eq!(buf[(59, 0)].fg, Color::Red);
    // The zones derive from the -12 dB and -3 dB marks.
    assert_eq!(buf[(48, 0)].fg, Color::Green);
    assert_eq!(buf[(49, 0)].fg, Color::Yellow);
    assert_eq!(buf[(56, 0)].fg, Color::Yellow);
    assert_eq!(buf[(57, 0)].fg, Color::Red);
}

#[test]
fn render_zero_ratio_leaves_peak_marker_only() {
    // At ratio 0 only column 0 is painted: the bar's rounded fill extent
    // and the peak marker coincide there.
    let mut buf = Buffer::empty(Rect::new(0, 0, 60, 1));
    let mut state = MeterState::new_at(0);
    let meter = Meter::mono()
        .show_labels(false)
        .show_scale(false)
        .ratio(MeterInput::Mono(0));
    meter.render(area(0, 0, 60, 1), &mut buf, &mut state, 0);
    assert_eq!(buf[(0, 0)].symbol(), "▉");
    for x in 1..60u16 {
        assert_eq!(buf[(x, 0)].symbol(), " ", "column {} was painted", x);
    }
}

#[test]
fn render_zero_area_is_a_noop() {
    let meter = Meter::mono().ratio(MeterInput::Mono(700_000));
    let before = Buffer::empty(Rect::new(0, 0, 30, 4));

    let mut buf = before.clone();
    let mut state = MeterState::new_at(0);
    meter.render(area(0, 0, 0, 4), &mut buf, &mut state, 5_000);
    assert_eq!(buf, before);
    assert_eq!(state.peak_hold_ppm, [0, 0]);
    assert_eq!(state.last_peak_ms, [0, 0]);

    let mut buf = before.clone();
    let mut state = MeterState::new_at(0);
    meter.render(area(0, 0, 30, 0), &mut buf, &mut state, 5_000);
    assert_eq!(buf, before);
    assert_eq!(state.peak_hold_ppm, [0, 0]);
}

#[test]
fn render_stereo_bare_uses_exactly_two_rows() {
    // A stereo meter with labels and scale off occupies exactly two
    // rows: one bar per channel, nothing anywhere else.
    let mut buf = Buffer::empty(Rect::new(0, 0, 60, 5));
    let mut state = MeterState::new_at(0);
    let meter = Meter::stereo()
        .show_labels(false)
        .show_scale(false)
        .ratio(MeterInput::Stereo(1_000_000, 1_000_000));
    meter.render(area(0, 0, 60, 5), &mut buf, &mut state, 0);
    for x in 0..60u16 {
        assert_eq!(buf[(x, 0)].symbol(), "▉");
        assert_eq!(buf[(x, 1)].symbol(), "▉");
    }
    for y in 2..5u16 {
        for x in 0..60u16 {
            assert_eq!(buf[(x, y)].symbol(), " ", "cell ({}, {}) painted", x, y);
            assert_eq!(buf[(x, y)].fg, Color::Reset);
        }
    }
}

#[test]
fn render_label_row_shows_decibels() {
    // At ratio 0.25 the label reads -60.0 dB.
    let mut buf = Buffer::empty(Rect::new(0, 0, 20, 2));
    let mut state = MeterState::new_at(0);
    let meter = Meter::mono()
        .show_scale(false)
        .ratio(MeterInput::Mono(250_000));
    meter.render(area(0, 0, 20, 2), &mut buf, &mut state, 0);
    let expected = ["-", "6", "0", ".", "0", " ", "d", "B"];
    for (i, ch) in expected.iter().enumerate() {
        assert_eq!(buf[(i as u16, 0)].symbol(), *ch, "label column {}", i);
    }
    // The bar row below is filled to a quarter of the width (rounded).
    assert_eq!(buf[(5, 1)].symbol(), "▉");
    assert_eq!(buf[(6, 1)].symbol(), " ");
}

#[test]
fn render_label_row_negative_infinity() {
    let mut buf = Buffer::empty(Rect::new(0, 0, 20, 2));
    let mut state = MeterState::new_at(0);
    let meter = Meter::mono().show_scale(false).ratio(MeterInput::Mono(0));
    meter.render(area(0, 0, 20, 2), &mut buf, &mut state, 0);
    let expected = ["-", "∞", " ", "d", "B"];
    for (i, ch) in expected.iter().enumerate() {
        assert_eq!(buf[(i as u16, 0)].symbol(), *ch, "label column {}", i);
    }
}

#[test]
fn render_scale_row_wide() {
    // A wide scale row shows the full mark set; the left edge carries
    // the negative-infinity mark and the right edge the 0 dB mark.
    let mut buf = Buffer::empty(Rect::new(0, 0, 60, 2));
    let mut state = MeterState::new_at(0);
    let meter = Meter::mono()
        .show_labels(false)
        .ratio(MeterInput::Mono(0));
    meter.render(area(0, 0, 60, 2), &mut buf, &mut state, 0);
    assert_eq!(buf[(0, 1)].symbol(), "-");
    assert_eq!(buf[(1, 1)].symbol(), "∞");
    // The -60 dB mark sits at a quarter of the row, shifted one left.
    assert_eq!(buf[(14, 1)].symbol(), "-");
    assert_eq!(buf[(15, 1)].symbol(), "6");
    assert_eq!(buf[(16, 1)].symbol(), "0");
    assert_eq!(buf[(59, 1)].symbol(), "0");
}

#[test]
fn render_narrow_scale_row_keeps_edge_marks() {
    let mut buf = Buffer::empty(Rect::new(0, 0, 18, 2));
    let mut state = MeterState::new_at(0);
    let meter = Meter::mono()
        .show_labels(false)
        .ratio(MeterInput::Mono(0));
    meter.render(area(0, 0, 18, 2), &mut buf, &mut state, 0);
    assert_eq!(buf[(0, 1)].symbol(), "-");
    assert_eq!(buf[(1, 1)].symbol(), "∞");
    assert_eq!(buf[(17, 1)].symbol(), "0");
}

#[test]
fn render_clips_to_buffer() {
    // A region wider than the buffer paints only the part that exists;
    // nothing fails.
    let mut buf = Buffer::empty(Rect::new(0, 0, 10, 1));
    let mut state = MeterState::new_at(0);
    let meter = Meter::mono()
        .show_labels(false)
        .show_scale(false)
        .ratio(MeterInput::Mono(1_000_000));
    meter.render(area(0, 0, 20, 1), &mut buf, &mut state, 0);
    for x in 0..10u16 {
        assert_eq!(buf[(x, 0)].symbol(), "▉");
    }
}

#[test]
fn render_offset_region_stays_inside() {
    let mut buf = Buffer::empty(Rect::new(0, 0, 20, 4));
    let mut state = MeterState::new_at(0);
    let meter = Meter::mono()
        .show_labels(false)
        .show_scale(false)
        .ratio(MeterInput::Mono(1_000_000));
    meter.render(area(5, 2, 10, 1), &mut buf, &mut state, 0);
    for x in 5..15u16 {
        assert_eq!(buf[(x, 2)].symbol(), "▉");
    }
    assert_eq!(buf[(4, 2)].symbol(), " ");
    assert_eq!(buf[(15, 2)].symbol(), " ");
    for x in 0..20u16 {
        assert_eq!(buf[(x, 1)].symbol(), " ");
        assert_eq!(buf[(x, 3)].symbol(), " ");
    }
}

#[test]
fn render_updates_peak_state() {
    // The renderer drives the peak-hold state: the marker stays at the
    // old peak while the hold window is open.
    let mut buf = Buffer::empty(Rect::new(0, 0, 60, 1));
    let mut state = MeterState::new_at(0);
    let meter = Meter::mono()
        .show_labels(false)
        .show_scale(false)
        .ratio(MeterInput::Mono(500_000));
    meter.render(area(0, 0, 60, 1), &mut buf, &mut state, 0);
    assert_eq!(state.peak_hold_ppm[0], 500_000);

    let mut buf = Buffer::empty(Rect::new(0, 0, 60, 1));
    let quiet = Meter::mono()
        .show_labels(false)
        .show_scale(false)
        .ratio(MeterInput::Mono(100_000));
    quiet.render(area(0, 0, 60, 1), &mut buf, &mut state, 500);
    assert_eq!(state.peak_hold_ppm[0], 500_000);
    // Fill reaches round(60 * 0.1) = 6; the held peak paints its marker
    // at round(60 * 0.5) = 30.
    assert_eq!(buf[(6, 0)].symbol(), "▉");
    assert_eq!(buf[(7, 0)].symbol(), " ");
    assert_eq!(buf[(30, 0)].symbol(), "▉");
}

#[test]
fn render_stereo_full_layout() {
    // Default stereo config: two label rows, two bar rows, one scale
    // row, stacked top to bottom.
    let mut buf = Buffer::empty(Rect::new(0, 0, 60, 5));
    let mut state = MeterState::new_at(0);
    let meter = Meter::stereo().ratio(MeterInput::Stereo(1_000_000, 250_000));
    meter.render(area(0, 0, 60, 5), &mut buf, &mut state, 0);
    // Labels: 0.0 dB for the left channel, -60.0 dB for the right.
    let left = ["0", ".", "0", " ", "d", "B"];
    for (i, ch) in left.iter().enumerate() {
        assert_eq!(buf[(i as u16, 0)].symbol(), *ch, "left label column {}", i);
    }
    let right = ["-", "6", "0", ".", "0", " ", "d", "B"];
    for (i, ch) in right.iter().enumerate() {
        assert_eq!(buf[(i as u16, 1)].symbol(), *ch, "right label column {}", i);
    }
    // Bars: the left channel fills the row, the right a quarter of it.
    for x in 0..60u16 {
        assert_eq!(buf[(x, 2)].symbol(), "▉");
    }
    assert_eq!(buf[(15, 3)].symbol(), "▉");
    assert_eq!(buf[(16, 3)].symbol(), " ");
    // Scale row edges.
    assert_eq!(buf[(0, 4)].symbol(), "-");
    assert_eq!(buf[(1, 4)].symbol(), "∞");
    assert_eq!(buf[(59, 4)].symbol(), "0");
}

#[test]
fn render_label_keeps_underlying_foreground() {
    // Label text sets glyphs but leaves each cell's foreground color as
    // it was.
    let mut buf = Buffer::empty(Rect::new(0, 0, 20, 2));
    buf[(0u16, 0u16)].set_fg(Color::Magenta);
    let mut state = MeterState::new_at(0);
    let meter = Meter::mono()
        .show_scale(false)
        .ratio(MeterInput::Mono(250_000));
    meter.render(area(0, 0, 20, 2), &mut buf, &mut state, 0);
    assert_eq!(buf[(0, 0)].symbol(), "-");
    assert_eq!(buf[(0, 0)].fg, Color::Magenta);
}
