use crate::geometry::{Pos, Rect};
use crate::rational::{
    lemma_mul_bound, lemma_pos_mul_pos, lemma_round_div_bound, map_to_pixel, radd, rclamp, rdiv,
    rhalf, rmax, rmin, rmul, round_div_spec, rsnap, rsub, Frac,
};
use crate::style::Style;
use vstd::prelude::*;

verus! {

/// Bounds on the rationals fed into the split resolver, forced by `i128`
/// overflow limits: logical coordinates and style dimensions carry at most
/// 1/32 of a unit of extra precision and stay within +/- 32768 units.
pub open spec fn coord_frac(a: Frac) -> bool {
    a.wf() && a.den <= 0x20 && -0x8000 * a.den <= a.num <= 0x8000 * a.den
}

/// A split fraction: denominator at most 2^16, value within +/- 4.
pub open spec fn fraction_frac(a: Frac) -> bool {
    a.wf() && a.den <= 0x10000 && -4 * a.den <= a.num <= 4 * a.den
}

/// A pixels-per-logical-unit ratio: positive, at most 32, denominator at
/// most 32.
pub open spec fn ratio_frac(a: Frac) -> bool {
    a.wf() && a.den <= 0x20 && 0 < a.num <= 0x20 * a.den
}

/// Bounds that the snapped separator edges are guaranteed to satisfy.
pub open spec fn sep_frac(a: Frac) -> bool {
    a.wf() && a.den <= 0x400 && -0x2000_0000 <= a.num <= 0x2000_0000
}

/// The extent of the interval `[lo, hi]`.
pub open spec fn extent(lo: (int, int), hi: (int, int)) -> (int, int) {
    rsub(hi, lo)
}

/// The fraction after adding this frame's drag delta, converted to a
/// proportion of the extent `e`.  A zero extent contributes no delta.
pub open spec fn dragged_fraction(f: (int, int), delta: (int, int), e: (int, int)) -> (int, int) {
    if e.0 == 0 {
        f
    } else {
        radd(f, rdiv(delta, e))
    }
}

/// The provisional lower clamp bound `min(extra / extent, 1)`; a zero
/// extent degenerates it to 1.
pub open spec fn min_fraction_bound(extra: (int, int), e: (int, int)) -> (int, int) {
    if e.0 == 0 {
        (1int, 1int)
    } else {
        rmin(rdiv(extra, e), (1int, 1int))
    }
}

/// The lower clamp bound after symmetrizing against its mirror `1 - min`.
pub open spec fn clamp_lo(extra: (int, int), e: (int, int)) -> (int, int) {
    rmin(min_fraction_bound(extra, e), rsub((1int, 1int), min_fraction_bound(extra, e)))
}

/// The upper clamp bound after symmetrizing.
pub open spec fn clamp_hi(extra: (int, int), e: (int, int)) -> (int, int) {
    rmax(rsub((1int, 1int), min_fraction_bound(extra, e)), min_fraction_bound(extra, e))
}

/// The split fraction after one resolution step: drag applied, then clamped
/// into the symmetrized bounds.
pub open spec fn resolved_fraction(
    f: (int, int),
    delta: (int, int),
    extra: (int, int),
    lo: (int, int),
    hi: (int, int),
) -> (int, int) {
    rclamp(
        dragged_fraction(f, delta, extent(lo, hi)),
        clamp_lo(extra, extent(lo, hi)),
        clamp_hi(extra, extent(lo, hi)),
    )
}

/// The separator's centerline: `lo + extent * fraction`.
pub open spec fn sep_center(f: (int, int), lo: (int, int), hi: (int, int)) -> (int, int) {
    radd(lo, rmul(extent(lo, hi), f))
}

/// The separator's leading edge, snapped to the device-pixel grid.
pub open spec fn separator_lo(
    f: (int, int),
    width: (int, int),
    lo: (int, int),
    hi: (int, int),
    ppp: (int, int),
) -> (int, int) {
    rsnap(rsub(sep_center(f, lo, hi), rhalf(width)), ppp)
}

/// The separator's trailing edge, snapped to the device-pixel grid.
pub open spec fn separator_hi(
    f: (int, int),
    width: (int, int),
    lo: (int, int),
    hi: (int, int),
    ppp: (int, int),
) -> (int, int) {
    rsnap(radd(sep_center(f, lo, hi), rhalf(width)), ppp)
}

/// One-dimensional split resolution along either axis: updates the fraction
/// from the drag delta and the clamp bounds, and returns the separator
/// strip's two snapped edges.
pub fn split_axis(
    width: Frac,
    extra: Frac,
    lo: Frac,
    hi: Frac,
    fraction: &mut Frac,
    delta: Frac,
    ppp: Frac,
) -> (r: (Frac, Frac))
    requires
        coord_frac(width),
        coord_frac(extra),
        coord_frac(lo),
        coord_frac(hi),
        coord_frac(delta),
        fraction_frac(*old(fraction)),
        ratio_frac(ppp),
        lo.le(hi),
        0 <= width.num,
        0 <= extra.num,
    ensures
        final(fraction).v() == resolved_fraction(
            old(fraction).v(),
            delta.v(),
            extra.v(),
            lo.v(),
            hi.v(),
        ),
        final(fraction).wf(),
        r.0.v() == separator_lo(final(fraction).v(), width.v(), lo.v(), hi.v(), ppp.v()),
        r.1.v() == separator_hi(final(fraction).v(), width.v(), lo.v(), hi.v(), ppp.v()),
        sep_frac(r.0),
        sep_frac(r.1),
{
    let ghost f0 = fraction.v();
    proof {
        lemma_mul_bound(hi.num as int, lo.den as int, 0x100000, 0x20);
        lemma_mul_bound(lo.num as int, hi.den as int, 0x100000, 0x20);
        lemma_mul_bound(hi.den as int, lo.den as int, 0x20, 0x20);
    }
    let e = hi.sub(lo);
    proof {
        assert(0 <= e.num && e.num <= 0x10000 * e.den && e.num <= 0x400_0000 && e.den <= 0x400)
            by (nonlinear_arith)
            requires
                e.num == hi.num * lo.den - lo.num * hi.den,
                e.den == hi.den * lo.den,
                hi.num <= 0x8000 * hi.den,
                -0x8000 * lo.den <= lo.num,
                lo.num * hi.den <= hi.num * lo.den,
                0 < lo.den <= 0x20,
                0 < hi.den <= 0x20,
                -(0x100000 * 0x20) <= hi.num * lo.den <= 0x100000 * 0x20,
                -(0x100000 * 0x20) <= lo.num * hi.den,
        ;
    }
    // Apply the drag delta as a proportion of the extent.
    let f1: Frac = if e.num == 0 {
        *fraction
    } else {
        proof {
            lemma_mul_bound(delta.num as int, e.den as int, 0x100000, 0x400);
            lemma_mul_bound(delta.den as int, e.num as int, 0x20, 0x400_0000);
        }
        let de = delta.div(e);
        proof {
            lemma_mul_bound(fraction.num as int, de.den as int, 0x40000, 0x8000_0000);
            lemma_mul_bound(de.num as int, fraction.den as int, 0x4000_0000, 0x10000);
            lemma_mul_bound(fraction.den as int, de.den as int, 0x10000, 0x8000_0000);
        }
        fraction.add(de)
    };
    proof {
        assert(f1.wf() && -0x4_0000_0000_0000 <= f1.num <= 0x4_0000_0000_0000 && f1.den
            <= 0x8000_0000_0000);
        assert(f1.v() == dragged_fraction(f0, delta.v(), e.v()));
    }
    // Clamp bounds: min(extra / extent, 1) symmetrized against its mirror.
    let one = Frac::from_int(1);
    let min0: Frac = if e.num == 0 {
        one
    } else {
        proof {
            lemma_mul_bound(extra.num as int, e.den as int, 0x100000, 0x400);
            lemma_mul_bound(extra.den as int, e.num as int, 0x20, 0x400_0000);
        }
        let md = extra.div(e);
        md.min_of(one)
    };
    proof {
        assert(min0.wf() && 0 <= min0.num <= 0x4000_0000 && min0.den <= 0x8000_0000);
        assert(min0.le(one));
        assert(min0.num <= min0.den);
        assert(min0.v() == min_fraction_bound(extra.v(), e.v()));
    }
    let max0 = one.sub(min0);
    proof {
        assert(max0.den == min0.den && max0.num == min0.den - min0.num);
        assert(0 <= max0.num <= max0.den);
        lemma_mul_bound(min0.num as int, max0.den as int, 0x4000_0000, 0x8000_0000);
        lemma_mul_bound(max0.num as int, min0.den as int, 0x1_0000_0000, 0x8000_0000);
    }
    let mn = min0.min_of(max0);
    let mx = max0.max_of(min0);
    proof {
        if min0.le(max0) {
            assert(mn == min0);
        } else {
            assert(max0.le(min0));
            assert(mn == max0 && mx == min0);
        }
        assert(mn.le(mx));
        assert(0 <= mn.num <= mn.den && 0 <= mx.num <= mx.den);
        assert(mn.num <= 0x1_0000_0000 && mn.den <= 0x8000_0000);
        assert(mx.num <= 0x1_0000_0000 && mx.den <= 0x8000_0000);
        lemma_mul_bound(f1.num as int, mn.den as int, 0x4_0000_0000_0000, 0x8000_0000);
        lemma_mul_bound(mn.num as int, f1.den as int, 0x1_0000_0000, 0x8000_0000_0000);
        lemma_mul_bound(f1.num as int, mx.den as int, 0x4_0000_0000_0000, 0x8000_0000);
        lemma_mul_bound(mx.num as int, f1.den as int, 0x1_0000_0000, 0x8000_0000_0000);
    }
    let f2 = f1.clamp(mn, mx);
    *fraction = f2;
    proof {
        assert(f2.num <= 0x4_0000_0000_0000 && -0x4_0000_0000_0000 <= f2.num && f2.den
            <= 0x8000_0000_0000);
        assert(0 <= f2.num) by (nonlinear_arith)
            requires
                0 <= mn.num,
                0 < f2.den,
                0 < mn.den,
                mn.num * f2.den <= f2.num * mn.den,
        ;
        assert(f2.num <= f2.den) by (nonlinear_arith)
            requires
                f2.num * mx.den <= mx.num * f2.den,
                mx.num <= mx.den,
                0 < f2.den,
                0 < mx.den,
        ;
        lemma_mul_bound(e.num as int, f2.num as int, 0x400_0000, 0x4_0000_0000_0000);
        lemma_mul_bound(e.den as int, f2.den as int, 0x400, 0x8000_0000_0000);
    }
    // Recompute the centerline from the clamped fraction.
    let t = e.mul(f2);
    proof {
        assert(0 <= t.num && t.num <= 0x10000 * t.den) by (nonlinear_arith)
            requires
                t.num == e.num * f2.num,
                t.den == e.den * f2.den,
                0 <= e.num,
                e.num <= 0x10000 * e.den,
                0 <= f2.num,
                f2.num <= f2.den,
                0 < e.den,
                0 < f2.den,
        ;
        lemma_mul_bound(lo.num as int, t.den as int, 0x100000, 0x2000_0000_0000_0000);
        lemma_mul_bound(t.num as int, lo.den as int, 0x1000_0000_0000_0000_0000, 0x20);
        lemma_mul_bound(lo.den as int, t.den as int, 0x20, 0x2000_0000_0000_0000);
    }
    let mid = lo.add(t);
    proof {
        assert(-0x20000 * mid.den <= mid.num <= 0x20000 * mid.den) by (nonlinear_arith)
            requires
                mid.num == lo.num * t.den + t.num * lo.den,
                mid.den == lo.den * t.den,
                -0x8000 * lo.den <= lo.num <= 0x8000 * lo.den,
                0 <= t.num,
                t.num <= 0x10000 * t.den,
                0 < lo.den,
                0 < t.den,
        ;
    }
    let w2 = width.half();
    proof {
        assert(0 <= w2.num && w2.num <= 0x4000 * w2.den);
        lemma_mul_bound(mid.num as int, w2.den as int, 0x80_0000_0000_0000_0000_0000, 0x40);
        lemma_mul_bound(w2.num as int, mid.den as int, 0x100000, 0x4000_0000_0000_0000_0000);
        lemma_mul_bound(mid.den as int, w2.den as int, 0x4000_0000_0000_0000_0000, 0x40);
    }
    let slo_raw = mid.sub(w2);
    let shi_raw = mid.add(w2);
    proof {
        assert(-0x40000 * slo_raw.den <= slo_raw.num <= 0x40000 * slo_raw.den
            && -0x40000 * shi_raw.den <= shi_raw.num <= 0x40000 * shi_raw.den)
            by (nonlinear_arith)
            requires
                slo_raw.num == mid.num * w2.den - w2.num * mid.den,
                slo_raw.den == mid.den * w2.den,
                shi_raw.num == mid.num * w2.den + w2.num * mid.den,
                shi_raw.den == mid.den * w2.den,
                -0x20000 * mid.den <= mid.num <= 0x20000 * mid.den,
                0 <= w2.num,
                w2.num <= 0x4000 * w2.den,
                0 < mid.den,
                0 < w2.den,
        ;
    }
    let slo = snap_edge(slo_raw, ppp);
    let shi = snap_edge(shi_raw, ppp);
    (slo, shi)
}

impl Style {
    /// Overflow-safe bounds on the separator dimensions; the data model
    /// keeps dimensions non-negative.
    pub open spec fn separator_dims_wf(self) -> bool {
        coord_frac(self.separator_width) && coord_frac(self.separator_extra) && 0
            <= self.separator_width.num && 0 <= self.separator_extra.num
    }

    /// The provisional separator strip for a horizontal split, centered on
    /// the pre-drag fraction; the host registers this strip as the
    /// click-and-drag region with a horizontal-resize cursor hint.
    pub fn hsplit_separator(&self, fraction: Frac, rect: Rect) -> (r: Rect)
        requires
            self.separator_dims_wf(),
            coord_frac(rect.min.x),
            coord_frac(rect.max.x),
            fraction_frac(fraction),
            rect.wf(),
        ensures
            r.min.x.v() == rsub(
                sep_center(fraction.v(), rect.min.x.v(), rect.max.x.v()),
                rhalf(self.separator_width.v()),
            ),
            r.max.x.v() == radd(
                sep_center(fraction.v(), rect.min.x.v(), rect.max.x.v()),
                rhalf(self.separator_width.v()),
            ),
            r.min.y == rect.min.y,
            r.max.y == rect.max.y,
            r.wf(),
    {
        let (a, b) = separator_span(self.separator_width, fraction, rect.min.x, rect.max.x);
        Rect {
            min: Pos { x: a, y: rect.min.y },
            max: Pos { x: b, y: rect.max.y },
        }
    }

    /// The provisional separator strip for a vertical split, centered on
    /// the pre-drag fraction; the host registers this strip as the
    /// click-and-drag region with a vertical-resize cursor hint.
    pub fn vsplit_separator(&self, fraction: Frac, rect: Rect) -> (r: Rect)
        requires
            self.separator_dims_wf(),
            coord_frac(rect.min.y),
            coord_frac(rect.max.y),
            fraction_frac(fraction),
            rect.wf(),
        ensures
            r.min.y.v() == rsub(
                sep_center(fraction.v(), rect.min.y.v(), rect.max.y.v()),
                rhalf(self.separator_width.v()),
            ),
            r.max.y.v() == radd(
                sep_center(fraction.v(), rect.min.y.v(), rect.max.y.v()),
                rhalf(self.separator_width.v()),
            ),
            r.min.x == rect.min.x,
            r.max.x == rect.max.x,
            r.wf(),
    {
        let (a, b) = separator_span(self.separator_width, fraction, rect.min.y, rect.max.y);
        Rect {
            min: Pos { x: rect.min.x, y: a },
            max: Pos { x: rect.max.x, y: b },
        }
    }

    /// Resolve a horizontal split of `rect` (panes side by side): apply the
    /// drag delta the host read from the separator strip, clamp the
    /// fraction, and return the region right of the separator, the snapped
    /// separator strip, and the region left of it.
    pub fn hsplit(&self, fraction: &mut Frac, rect: Rect, drag_delta: Frac, ppp: Frac) -> (r: (
        Rect,
        Rect,
        Rect,
    ))
        requires
            self.separator_dims_wf(),
            coord_frac(rect.min.x),
            coord_frac(rect.max.x),
            rect.min.x.le(rect.max.x),
            rect.wf(),
            fraction_frac(*old(fraction)),
            coord_frac(drag_delta),
            ratio_frac(ppp),
        ensures
            final(fraction).v() == resolved_fraction(
                old(fraction).v(),
                drag_delta.v(),
                self.separator_extra.v(),
                rect.min.x.v(),
                rect.max.x.v(),
            ),
            final(fraction).wf(),
            r.1.min.x.v() == separator_lo(
                final(fraction).v(),
                self.separator_width.v(),
                rect.min.x.v(),
                rect.max.x.v(),
                ppp.v(),
            ),
            r.1.max.x.v() == separator_hi(
                final(fraction).v(),
                self.separator_width.v(),
                rect.min.x.v(),
                rect.max.x.v(),
                ppp.v(),
            ),
            r.1.min.y == rect.min.y && r.1.max.y == rect.max.y,
            r.0.min.x.v() == rmax(rect.min.x.v(), r.1.max.x.v()),
            r.0.max.x == rect.max.x,
            r.0.min.y == rect.min.y && r.0.max.y == rect.max.y,
            r.2.min.x == rect.min.x,
            r.2.max.x.v() == rmin(rect.max.x.v(), r.1.min.x.v()),
            r.2.min.y == rect.min.y && r.2.max.y == rect.max.y,
            r.0.wf() && r.1.wf() && r.2.wf(),
            sep_frac(r.1.min.x) && sep_frac(r.1.max.x),
    {
        let (slo, shi) = split_axis(
            self.separator_width,
            self.separator_extra,
            rect.min.x,
            rect.max.x,
            fraction,
            drag_delta,
            ppp,
        );
        proof {
            lemma_mul_bound(rect.min.x.num as int, shi.den as int, 0x100000, 0x400);
            lemma_mul_bound(shi.num as int, rect.min.x.den as int, 0x2000_0000, 0x20);
            lemma_mul_bound(rect.max.x.num as int, slo.den as int, 0x100000, 0x400);
            lemma_mul_bound(slo.num as int, rect.max.x.den as int, 0x2000_0000, 0x20);
        }
        let first_min_x = rect.min.x.max_of(shi);
        let second_max_x = rect.max.x.min_of(slo);
        (
            Rect {
                min: Pos { x: first_min_x, y: rect.min.y },
                max: Pos { x: rect.max.x, y: rect.max.y },
            },
            Rect { min: Pos { x: slo, y: rect.min.y }, max: Pos { x: shi, y: rect.max.y } },
            Rect {
                min: Pos { x: rect.min.x, y: rect.min.y },
                max: Pos { x: second_max_x, y: rect.max.y },
            },
        )
    }

    /// Resolve a vertical split of `rect` (panes stacked): the mirror image
    /// of `hsplit` along the other axis, returning the region above the
    /// separator, the snapped separator strip, and the region below it.
    pub fn vsplit(&self, fraction: &mut Frac, rect: Rect, drag_delta: Frac, ppp: Frac) -> (r: (
        Rect,
        Rect,
        Rect,
    ))
        requires
            self.separator_dims_wf(),
            coord_frac(rect.min.y),
            coord_frac(rect.max.y),
            rect.min.y.le(rect.max.y),
            rect.wf(),
            fraction_frac(*old(fraction)),
            coord_frac(drag_delta),
            ratio_frac(ppp),
        ensures
            final(fraction).v() == resolved_fraction(
                old(fraction).v(),
                drag_delta.v(),
                self.separator_extra.v(),
                rect.min.y.v(),
                rect.max.y.v(),
            ),
            final(fraction).wf(),
            r.1.min.y.v() == separator_lo(
                final(fraction).v(),
                self.separator_width.v(),
                rect.min.y.v(),
                rect.max.y.v(),
                ppp.v(),
            ),
            r.1.max.y.v() == separator_hi(
                final(fraction).v(),
                self.separator_width.v(),
                rect.min.y.v(),
                rect.max.y.v(),
                ppp.v(),
            ),
            r.1.min.x == rect.min.x && r.1.max.x == rect.max.x,
            r.0.min.y == rect.min.y,
            r.0.max.y.v() == rmin(rect.max.y.v(), r.1.min.y.v()),
            r.0.min.x == rect.min.x && r.0.max.x == rect.max.x,
            r.2.min.y.v() == rmax(rect.min.y.v(), r.1.max.y.v()),
            r.2.max.y == rect.max.y,
            r.2.min.x == rect.min.x && r.2.max.x == rect.max.x,
            r.0.wf() && r.1.wf() && r.2.wf(),
            sep_frac(r.1.min.y) && sep_frac(r.1.max.y),
    {
        let (slo, shi) = split_axis(
            self.separator_width,
            self.separator_extra,
            rect.min.y,
            rect.max.y,
            fraction,
            drag_delta,
            ppp,
        );
        proof {
            lemma_mul_bound(rect.min.y.num as int, shi.den as int, 0x100000, 0x400);
            lemma_mul_bound(shi.num as int, rect.min.y.den as int, 0x2000_0000, 0x20);
            lemma_mul_bound(rect.max.y.num as int, slo.den as int, 0x100000, 0x400);
            lemma_mul_bound(slo.num as int, rect.max.y.den as int, 0x2000_0000, 0x20);
        }
        let first_max_y = rect.max.y.min_of(slo);
        let second_min_y = rect.min.y.max_of(shi);
        (
            Rect {
                min: Pos { x: rect.min.x, y: rect.min.y },
                max: Pos { x: rect.max.x, y: first_max_y },
            },
            Rect { min: Pos { x: rect.min.x, y: slo }, max: Pos { x: rect.max.x, y: shi } },
            Rect {
                min: Pos { x: rect.min.x, y: second_min_y },
                max: Pos { x: rect.max.x, y: rect.max.y },
            },
        )
    }
}

/// The unsnapped separator edges around the centerline `lo + extent * f`.
fn separator_span(width: Frac, f: Frac, lo: Frac, hi: Frac) -> (r: (Frac, Frac))
    requires
        coord_frac(width),
        0 <= width.num,
        coord_frac(lo),
        coord_frac(hi),
        fraction_frac(f),
    ensures
        r.0.v() == rsub(sep_center(f.v(), lo.v(), hi.v()), rhalf(width.v())),
        r.1.v() == radd(sep_center(f.v(), lo.v(), hi.v()), rhalf(width.v())),
        r.0.wf() && r.1.wf(),
{
    proof {
        lemma_mul_bound(hi.num as int, lo.den as int, 0x100000, 0x20);
        lemma_mul_bound(lo.num as int, hi.den as int, 0x100000, 0x20);
        lemma_mul_bound(hi.den as int, lo.den as int, 0x20, 0x20);
    }
    let e = hi.sub(lo);
    proof {
        lemma_mul_bound(e.num as int, f.num as int, 0x400_0000, 0x40000);
        lemma_mul_bound(e.den as int, f.den as int, 0x400, 0x10000);
    }
    let t = e.mul(f);
    proof {
        lemma_mul_bound(lo.num as int, t.den as int, 0x100000, 0x400_0000);
        lemma_mul_bound(t.num as int, lo.den as int, 0x4_0000_0000_0000, 0x20);
        lemma_mul_bound(lo.den as int, t.den as int, 0x20, 0x400_0000);
    }
    let mid = lo.add(t);
    let w2 = width.half();
    proof {
        lemma_mul_bound(mid.num as int, w2.den as int, 0x100_0000_0000_0000, 0x40);
        lemma_mul_bound(w2.num as int, mid.den as int, 0x100000, 0x80_0000_0000);
        lemma_mul_bound(mid.den as int, w2.den as int, 0x80_0000_0000, 0x40);
    }
    (mid.sub(w2), mid.add(w2))
}

/// Raw separator edges handed to `snap_edge`: value within +/- 2^18,
/// numerator and denominator within 2^90.
pub open spec fn edge_frac(a: Frac) -> bool {
    a.wf() && -0x40000 * a.den <= a.num <= 0x40000 * a.den && a.den
        <= 0x40_0000_0000_0000_0000_0000
}

/// Snap one separator edge and bound the result.
fn snap_edge(x: Frac, ppp: Frac) -> (r: Frac)
    requires
        edge_frac(x),
        ratio_frac(ppp),
    ensures
        r.v() == rsnap(x.v(), ppp.v()),
        sep_frac(r),
{
    proof {
        lemma_mul_bound(x.num as int, ppp.num as int, 0x1000_0000_0000_0000_0000_0000_0000, 0x400);
        lemma_mul_bound(x.den as int, ppp.den as int, 0x40_0000_0000_0000_0000_0000, 0x20);
    }
    let r = map_to_pixel(x, ppp);
    proof {
        let n = x.num * ppp.num;
        let d = x.den * ppp.den;
        let q = round_div_spec(n as int, d as int);
        lemma_pos_mul_pos(x.den as int, ppp.den as int);
        lemma_round_div_bound(n as int, d as int);
        assert(-(0x800000 * d) <= n <= 0x800000 * d) by (nonlinear_arith)
            requires
                n == x.num * ppp.num,
                d == x.den * ppp.den,
                -0x40000 * x.den <= x.num <= 0x40000 * x.den,
                0 < ppp.num <= 0x20 * ppp.den,
                0 < x.den,
                0 < ppp.den,
        ;
        assert(-0x800001 <= q <= 0x800001) by (nonlinear_arith)
            requires
                -d <= 2 * (n - q * d) <= d,
                -(0x800000 * d) <= n <= 0x800000 * d,
                0 < d,
        ;
        lemma_mul_bound(q, ppp.den as int, 0x800001, 0x20);
    }
    r
}

} // verus!
