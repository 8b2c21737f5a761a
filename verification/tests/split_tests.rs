use dock_style::geometry::{Pos, Rect};
use dock_style::rational::{map_to_pixel, Frac};
use dock_style::style::{Style, StyleBuilder};

fn frac(num: i128, den: i128) -> Frac {
    Frac::new(num, den)
}

fn rect(min_x: i128, min_y: i128, max_x: i128, max_y: i128) -> Rect {
    Rect::new(
        Pos::new(Frac::from_int(min_x), Frac::from_int(min_y)),
        Pos::new(Frac::from_int(max_x), Frac::from_int(max_y)),
    )
}

/// `a` and `b` represent the same rational.
fn same(a: Frac, num: i128, den: i128) -> bool {
    a.num * den == num * a.den
}

#[test]
fn drag_clamps_to_symmetrized_bounds() {
    // Rect width 400, fraction 0.5, separator_extra 175, separator_width 1:
    // clamp bounds are [0.4375, 0.5625]; a +200 unit drag (half the width)
    // clamps the fraction to 0.5625, not 1.0.
    let style = StyleBuilder::new()
        .with_separator_extra(frac(175, 1))
        .with_separator_width(frac(1, 1))
        .build();
    let mut fraction = frac(1, 2);
    let r = rect(0, 0, 400, 100);
    let (_first, sep, _second) =
        style.hsplit(&mut fraction, r, Frac::from_int(200), Frac::from_int(1));
    assert_eq!(fraction.num * 16, 9 * fraction.den);
    // The separator is centered on 400 * 0.5625 = 225, width 1, snapped at
    // device scale 1: edges round(224.5) = 225 and round(225.5) = 226.
    assert!(same(sep.min.x, 225, 1));
    assert!(same(sep.max.x, 226, 1));
    // The vertical span of the separator strip is the rect's.
    assert!(same(sep.min.y, 0, 1));
    assert!(same(sep.max.y, 100, 1));
}

#[test]
fn hsplit_regions_tile_the_rect() {
    let style = StyleBuilder::new()
        .with_separator_extra(frac(20, 1))
        .with_separator_width(frac(4, 1))
        .build();
    let mut fraction = frac(1, 2);
    let r = rect(0, 0, 100, 50);
    let (first, sep, second) =
        style.hsplit(&mut fraction, r, Frac::from_int(0), Frac::from_int(1));
    // Separator centered at 50, width 4: [48, 52].
    assert!(same(sep.min.x, 48, 1));
    assert!(same(sep.max.x, 52, 1));
    // First region is everything right of the separator, second everything
    // left of it: no gap, no overlap.
    assert!(same(first.min.x, 52, 1));
    assert!(same(first.max.x, 100, 1));
    assert!(same(second.min.x, 0, 1));
    assert!(same(second.max.x, 48, 1));
}

#[test]
fn hsplit_and_vsplit_are_mirror_symmetric() {
    let style = StyleBuilder::new()
        .with_separator_extra(frac(10, 1))
        .with_separator_width(frac(2, 1))
        .build();
    let r_h = rect(5, 0, 205, 40);
    let r_v = rect(0, 5, 40, 205);
    let mut f_h = frac(3, 10);
    let mut f_v = frac(3, 10);
    let delta = frac(7, 2);
    let ppp = frac(2, 1);
    let (h1, hs, h2) = style.hsplit(&mut f_h, r_h, delta, ppp);
    let (v1, vs, v2) = style.vsplit(&mut f_v, r_v, delta, ppp);
    assert_eq!(f_h.num * f_v.den, f_v.num * f_h.den);
    // x-extents of the horizontal split equal y-extents of the transposed
    // vertical split, with the pane roles exchanged.
    let width = |a: Frac, b: Frac| (b.num * a.den - a.num * b.den, a.den * b.den);
    assert_eq!(width(hs.min.x, hs.max.x), width(vs.min.y, vs.max.y));
    assert_eq!(width(h1.min.x, h1.max.x), width(v2.min.y, v2.max.y));
    assert_eq!(width(h2.min.x, h2.max.x), width(v1.min.y, v1.max.y));
}

#[test]
fn small_rect_resolution_is_idempotent() {
    // Extent 100 is below twice the default separator_extra of 175: the
    // clamp bounds degenerate and repeated resolution with zero drag keeps
    // the fraction fixed.
    let style = Style::default();
    let mut fraction = frac(1, 4);
    let r = rect(0, 0, 100, 50);
    let _ = style.hsplit(&mut fraction, r, Frac::from_int(0), Frac::from_int(1));
    let once = fraction;
    let _ = style.hsplit(&mut fraction, r, Frac::from_int(0), Frac::from_int(1));
    assert_eq!(fraction.num * once.den, once.num * fraction.den);
}

#[test]
fn extent_of_twice_extra_pins_fraction_to_half() {
    let style = StyleBuilder::new()
        .with_separator_extra(frac(50, 1))
        .with_separator_width(frac(1, 1))
        .build();
    let mut fraction = frac(9, 10);
    let r = rect(0, 0, 100, 50);
    let _ = style.hsplit(&mut fraction, r, Frac::from_int(30), Frac::from_int(1));
    assert_eq!(fraction.num * 2, fraction.den);
}

#[test]
fn zero_extent_rect_is_well_defined() {
    let style = Style::default();
    let mut fraction = frac(1, 3);
    let r = rect(50, 0, 50, 20);
    let (first, sep, second) =
        style.hsplit(&mut fraction, r, Frac::from_int(10), Frac::from_int(1));
    // The fraction stays within the degenerate [0, 1] bounds, unchanged.
    assert_eq!(fraction.num * 3, fraction.den);
    assert!(first.min.x.den > 0 && sep.min.x.den > 0 && second.max.x.den > 0);
    // The separator collapses onto the rect's edge, half a width on each
    // side, and the edges snap to whole device pixels: round(49.5) = 50
    // and round(50.5) = 51, ties rounding away from zero.
    assert!(same(sep.min.x, 50, 1));
    assert!(same(sep.max.x, 51, 1));
}

#[test]
fn separator_strip_registered_for_dragging() {
    let style = StyleBuilder::new().with_separator_width(frac(6, 1)).build();
    let r = rect(0, 0, 200, 100);
    let strip = style.hsplit_separator(frac(1, 4), r);
    assert!(same(strip.min.x, 47, 1));
    assert!(same(strip.max.x, 53, 1));
    let strip_v = style.vsplit_separator(frac(1, 4), rect(0, 0, 100, 200));
    assert!(same(strip_v.min.y, 47, 1));
    assert!(same(strip_v.max.y, 53, 1));
}

#[test]
fn pixel_snap_rounds_to_device_grid() {
    // round(224.3 * 1) / 1 = 224
    let s = map_to_pixel(frac(2243, 10), Frac::from_int(1));
    assert!(same(s, 224, 1));
    // round(224.5 * 2) / 2 = 224.5 stays exact on a 2x display
    let s2 = map_to_pixel(frac(449, 2), Frac::from_int(2));
    assert!(same(s2, 449, 2));
    // round(224.3 * 2) / 2 = 449 / 2
    let s3 = map_to_pixel(frac(2243, 10), Frac::from_int(2));
    assert!(same(s3, 449, 2));
    // ties round away from zero: round(-0.5) = -1
    let s4 = map_to_pixel(frac(-1, 2), Frac::from_int(1));
    assert!(same(s4, -1, 1));
}
