use crate::rational::{
    lemma_pos_mul_pos, lemma_round_div_bound, radd, rclamp, rdiv, reqv, rhalf, rle, rlt, rmax,
    rmin, rmul, round_div_spec, rsnap, rsub, rwf,
};
use crate::split::{
    clamp_hi, clamp_lo, dragged_fraction, extent, min_fraction_bound, resolved_fraction,
    sep_center, separator_hi, separator_lo,
};
use crate::tab::{close_glyph_size, tab_title_width};
use vstd::prelude::*;

verus! {

/// Ordering and equivalence of rationals transport along equivalence:
/// replacing one side of a comparison by an equal-valued rational does not
/// change the comparison.
pub proof fn lemma_rle_eqv(a: (int, int), b: (int, int), c: (int, int))
    by (nonlinear_arith)
    requires
        rwf(a),
        rwf(b),
        rwf(c),
        reqv(a, b),
    ensures
        rle(c, a) == rle(c, b),
        rle(a, c) == rle(b, c),
        rlt(c, a) == rlt(c, b),
        rlt(a, c) == rlt(b, c),
{
}

/// The symmetrized clamp bounds are always ordered, whatever the margin and
/// extent.
pub proof fn lemma_clamp_bounds_ordered(extra: (int, int), e: (int, int))
    requires
        rwf(extra),
        rwf(e),
        0 <= e.0,
    ensures
        rwf(clamp_lo(extra, e)),
        rwf(clamp_hi(extra, e)),
        rle(clamp_lo(extra, e), clamp_hi(extra, e)),
{
    let m = min_fraction_bound(extra, e);
    if e.0 != 0 {
        lemma_pos_mul_pos(extra.1, e.0);
    }
    assert(rwf(m));
    let s = rsub((1int, 1int), m);
    assert(s.0 == m.1 - m.0 && s.1 == m.1);
    if rle(m, s) {
        if rle(s, m) {
            assert(clamp_lo(extra, e) == m && clamp_hi(extra, e) == m);
        } else {
            assert(clamp_lo(extra, e) == m && clamp_hi(extra, e) == s);
        }
    } else {
        assert(rle(s, m));
        assert(clamp_lo(extra, e) == s && clamp_hi(extra, e) == m);
    }
}

/// A clamped value lies within the (ordered) clamp bounds.
pub proof fn lemma_rclamp_within(x: (int, int), lo: (int, int), hi: (int, int))
    requires
        rwf(x),
        rwf(lo),
        rwf(hi),
        rle(lo, hi),
    ensures
        rle(lo, rclamp(x, lo, hi)),
        rle(rclamp(x, lo, hi), hi),
        rwf(rclamp(x, lo, hi)),
{
}

/// Law: with a zero drag delta, split resolution is idempotent: the
/// fraction produced by one resolution is left unchanged, as a number, by
/// resolving again on the same rect.  In particular a degenerate rect
/// (extent at most twice the separator margin) holds its fixed point
/// across frames.
pub proof fn lemma_resolve_idempotent(
    f: (int, int),
    zero: (int, int),
    extra: (int, int),
    lo: (int, int),
    hi: (int, int),
)
    requires
        rwf(f),
        rwf(zero),
        zero.0 == 0,
        rwf(extra),
        rwf(lo),
        rwf(hi),
        rle(lo, hi),
    ensures
        reqv(
            resolved_fraction(resolved_fraction(f, zero, extra, lo, hi), zero, extra, lo, hi),
            resolved_fraction(f, zero, extra, lo, hi),
        ),
{
    let e = extent(lo, hi);
    lemma_pos_mul_pos(hi.1, lo.1);
    assert(0 <= e.0);
    let cl = clamp_lo(extra, e);
    let ch = clamp_hi(extra, e);
    lemma_clamp_bounds_ordered(extra, e);
    let f1 = dragged_fraction(f, zero, e);
    if e.0 != 0 {
        lemma_pos_mul_pos(zero.1, e.0);
        lemma_pos_mul_pos(f.1, zero.1 * e.0);
    }
    assert(rwf(f1));
    let f2 = rclamp(f1, cl, ch);
    assert(f2 == resolved_fraction(f, zero, extra, lo, hi));
    lemma_rclamp_within(f1, cl, ch);
    let f3 = dragged_fraction(f2, zero, e);
    if e.0 == 0 {
        assert(f3 == f2);
    } else {
        let dz = zero.1 * e.0;
        assert(f3 == (f2.0 * dz + 0 * f2.1, f2.1 * dz));
        assert(reqv(f3, f2) && rwf(f3)) by (nonlinear_arith)
            requires
                f3.0 == f2.0 * dz + 0 * f2.1,
                f3.1 == f2.1 * dz,
                0 < dz,
                0 < f2.1,
        ;
    }
    assert(reqv(f3, f2) && rwf(f3));
    lemma_rle_eqv(f3, f2, cl);
    lemma_rle_eqv(f3, f2, ch);
    assert(!rlt(f3, cl));
    assert(!rlt(ch, f3));
    assert(rclamp(f3, cl, ch) == f3);
}

/// Law: when the extent is exactly twice the separator margin, the two
/// clamp bounds coincide and the resolved fraction is pinned to one half,
/// whatever the stored fraction and the drag delta.
pub proof fn lemma_degenerate_extent_pins_fraction(
    f: (int, int),
    delta: (int, int),
    extra: (int, int),
    lo: (int, int),
    hi: (int, int),
)
    requires
        rwf(f),
        rwf(delta),
        rwf(extra),
        0 < extra.0,
        rwf(lo),
        rwf(hi),
        rle(lo, hi),
        reqv(extent(lo, hi), rmul((2int, 1int), extra)),
    ensures
        reqv(clamp_lo(extra, extent(lo, hi)), clamp_hi(extra, extent(lo, hi))),
        reqv(resolved_fraction(f, delta, extra, lo, hi), (1int, 2int)),
{
    let e = extent(lo, hi);
    lemma_pos_mul_pos(hi.1, lo.1);
    assert(e.0 * extra.1 == 2 * extra.0 * e.1);
    assert(0 < e.0) by (nonlinear_arith)
        requires
            e.0 * extra.1 == 2 * extra.0 * e.1,
            0 < extra.0,
            0 < extra.1,
            0 < e.1,
            0 <= e.0,
    ;
    let md = rdiv(extra, e);
    assert(md == (extra.0 * e.1, extra.1 * e.0));
    lemma_pos_mul_pos(extra.1, e.0);
    assert(reqv(md, (1int, 2int))) by (nonlinear_arith)
        requires
            md.0 == extra.0 * e.1,
            md.1 == extra.1 * e.0,
            e.0 * extra.1 == 2 * extra.0 * e.1,
    ;
    assert(rle(md, (1int, 1int))) by (nonlinear_arith)
        requires
            md.0 == extra.0 * e.1,
            md.1 == extra.1 * e.0,
            e.0 * extra.1 == 2 * extra.0 * e.1,
            0 <= md.0,
            0 < md.1,
    ;
    let m = min_fraction_bound(extra, e);
    assert(m == md);
    let s = rsub((1int, 1int), m);
    assert(s == (m.1 - m.0, m.1));
    assert(reqv(s, (1int, 2int))) by (nonlinear_arith)
        requires
            s.0 == m.1 - m.0,
            s.1 == m.1,
            m.0 * 2 == m.1,
    ;
    assert(reqv(m, s)) by (nonlinear_arith)
        requires
            m.0 * 2 == m.1,
            s.0 == m.1 - m.0,
            s.1 == m.1,
    ;
    let cl = clamp_lo(extra, e);
    let ch = clamp_hi(extra, e);
    lemma_clamp_bounds_ordered(extra, e);
    assert(reqv(cl, ch) && reqv(cl, (1int, 2int)) && reqv(ch, (1int, 2int)));
    let f1 = dragged_fraction(f, delta, e);
    lemma_pos_mul_pos(delta.1, e.0);
    lemma_pos_mul_pos(f.1, delta.1 * e.0);
    assert(rwf(f1));
    let f2 = rclamp(f1, cl, ch);
    lemma_rclamp_within(f1, cl, ch);
    lemma_rle_eqv(cl, ch, f2);
    assert(rle(f2, cl) && rle(cl, f2));
    assert(reqv(f2, cl));
    lemma_rle_eqv(f2, cl, (1int, 2int));
    assert(reqv(f2, (1int, 2int))) by (nonlinear_arith)
        requires
            reqv(f2, cl),
            reqv(cl, (1int, 2int)),
            0 < f2.1,
            0 < cl.1,
    ;
}

/// Law: for the same label and style, enabling close buttons widens the
/// desired tab header by exactly the close glyph size plus the 5-unit
/// text-to-glyph gap - and therefore strictly.
pub proof fn lemma_close_buttons_widen(text_w: (int, int), text_h: (int, int))
    requires
        rwf(text_w),
        rwf(text_h),
        0 <= text_h.0,
    ensures
        reqv(
            rsub(tab_title_width(true, text_w, text_h), tab_title_width(false, text_w, text_h)),
            radd(close_glyph_size(text_h), (5int, 1int)),
        ),
        rlt(tab_title_width(false, text_w, text_h), tab_title_width(true, text_w, text_h)),
{
    let w16 = radd(text_w, (16int, 1int));
    let g = close_glyph_size(text_h);
    let g5 = radd(g, (5int, 1int));
    let wt = radd(w16, g5);
    let d = rsub(wt, w16);
    assert(reqv(d, g5) && rlt(w16, wt)) by (nonlinear_arith)
        requires
            w16.0 == text_w.0 + 16 * text_w.1,
            w16.1 == text_w.1,
            g.0 == text_h.0 * 10,
            g.1 == text_h.1 * 13,
            g5.0 == g.0 * 1 + 5 * g.1,
            g5.1 == g.1 * 1,
            wt.0 == w16.0 * g5.1 + g5.0 * w16.1,
            wt.1 == w16.1 * g5.1,
            d.0 == wt.0 * w16.1 - w16.0 * wt.1,
            d.1 == wt.1 * w16.1,
            0 < text_w.1,
            0 < text_h.1,
            0 <= text_h.0,
        ;
}

/// Rounding to the nearest integer is monotone.
pub proof fn lemma_round_div_mono(n1: int, n2: int, d: int)
    requires
        0 < d,
        n1 <= n2,
    ensures
        round_div_spec(n1, d) <= round_div_spec(n2, d),
{
    if n1 >= 0 {
        vstd::arithmetic::div_mod::lemma_div_is_ordered(2 * n1 + d, 2 * n2 + d, 2 * d);
    } else if n2 >= 0 {
        vstd::arithmetic::div_mod::lemma_basic_div(0, 2 * d);
        vstd::arithmetic::div_mod::lemma_div_is_ordered(0, 2 * (-n1) + d, 2 * d);
        vstd::arithmetic::div_mod::lemma_div_is_ordered(0, 2 * n2 + d, 2 * d);
    } else {
        vstd::arithmetic::div_mod::lemma_div_is_ordered(2 * (-n2) + d, 2 * (-n1) + d, 2 * d);
    }
}

/// The resolved fraction is a well-formed rational.
pub proof fn lemma_resolved_fraction_wf(
    f: (int, int),
    delta: (int, int),
    extra: (int, int),
    lo: (int, int),
    hi: (int, int),
)
    requires
        rwf(f),
        rwf(delta),
        rwf(extra),
        rwf(lo),
        rwf(hi),
        rle(lo, hi),
    ensures
        rwf(resolved_fraction(f, delta, extra, lo, hi)),
{
    let e = extent(lo, hi);
    lemma_pos_mul_pos(hi.1, lo.1);
    lemma_clamp_bounds_ordered(extra, e);
    if e.0 != 0 {
        lemma_pos_mul_pos(delta.1, e.0);
        lemma_pos_mul_pos(f.1, delta.1 * e.0);
    }
}

/// Law: the snapped separator strip is ordered (its leading edge is at most
/// its trailing edge) and its width differs from the style's separator
/// width by at most one device pixel, whatever the drag and the clamp did.
pub proof fn lemma_separator_width_snap(
    f: (int, int),
    delta: (int, int),
    extra: (int, int),
    width: (int, int),
    lo: (int, int),
    hi: (int, int),
    ppp: (int, int),
)
    requires
        rwf(f),
        rwf(delta),
        rwf(extra),
        rwf(width),
        0 <= width.0,
        rwf(lo),
        rwf(hi),
        rle(lo, hi),
        0 < ppp.0,
        0 < ppp.1,
    ensures
        rle(
            separator_lo(resolved_fraction(f, delta, extra, lo, hi), width, lo, hi, ppp),
            separator_hi(resolved_fraction(f, delta, extra, lo, hi), width, lo, hi, ppp),
        ),
        rle(
            rsub(
                rsub(
                    separator_hi(resolved_fraction(f, delta, extra, lo, hi), width, lo, hi, ppp),
                    separator_lo(resolved_fraction(f, delta, extra, lo, hi), width, lo, hi, ppp),
                ),
                width,
            ),
            (ppp.1, ppp.0),
        ),
        rle(
            rsub(
                width,
                rsub(
                    separator_hi(resolved_fraction(f, delta, extra, lo, hi), width, lo, hi, ppp),
                    separator_lo(resolved_fraction(f, delta, extra, lo, hi), width, lo, hi, ppp),
                ),
            ),
            (ppp.1, ppp.0),
        ),
{
    let f2 = resolved_fraction(f, delta, extra, lo, hi);
    lemma_resolved_fraction_wf(f, delta, extra, lo, hi);
    let e = extent(lo, hi);
    lemma_pos_mul_pos(hi.1, lo.1);
    let c = sep_center(f2, lo, hi);
    lemma_pos_mul_pos(e.1, f2.1);
    lemma_pos_mul_pos(lo.1, e.1 * f2.1);
    assert(c.1 == lo.1 * (e.1 * f2.1) && 0 < c.1);
    let xl = rsub(c, rhalf(width));
    let xh = radd(c, rhalf(width));
    assert(xl.1 == c.1 * (2 * width.1) && xh.1 == c.1 * (2 * width.1));
    assert(xh.0 - xl.0 == 2 * (width.0 * c.1));
    let n1 = xl.0 * ppp.0;
    let n2 = xh.0 * ppp.0;
    let d = (c.1 * (2 * width.1)) * ppp.1;
    lemma_pos_mul_pos(c.1, 2 * width.1);
    lemma_pos_mul_pos(c.1 * (2 * width.1), ppp.1);
    assert(n2 - n1 == 2 * (width.0 * c.1) * ppp.0) by (nonlinear_arith)
        requires
            n1 == xl.0 * ppp.0,
            n2 == xh.0 * ppp.0,
            xh.0 - xl.0 == 2 * (width.0 * c.1),
    ;
    let q1 = round_div_spec(n1, d);
    let q2 = round_div_spec(n2, d);
    lemma_round_div_bound(n1, d);
    lemma_round_div_bound(n2, d);
    assert(0 <= width.0 * c.1) by (nonlinear_arith)
        requires
            0 <= width.0,
            0 < c.1,
    ;
    assert(n1 <= n2) by (nonlinear_arith)
        requires
            n2 - n1 == 2 * (width.0 * c.1) * ppp.0,
            0 <= width.0 * c.1,
            0 < ppp.0,
    ;
    lemma_round_div_mono(n1, n2, d);
    let sl = rsnap(xl, ppp);
    let sh = rsnap(xh, ppp);
    assert(sl == (q1 * ppp.1, ppp.0) && sh == (q2 * ppp.1, ppp.0));
    assert(rle(sl, sh)) by (nonlinear_arith)
        requires
            sl == ((q1 * ppp.1, ppp.0)),
            sh == ((q2 * ppp.1, ppp.0)),
            q1 <= q2,
            0 < ppp.0,
            0 < ppp.1,
    ;
    let dw = rsub(rsub(sh, sl), width);
    let vw = rsub(width, rsub(sh, sl));
    assert(dw.0 == ((q2 * ppp.1) * ppp.0 - (q1 * ppp.1) * ppp.0) * width.1 - width.0 * (ppp.0
        * ppp.0) && dw.1 == (ppp.0 * ppp.0) * width.1);
    assert(vw.0 == -dw.0 && vw.1 == dw.1);
    assert(2 * (width.0 * c.1) * ppp.0 - d <= (q2 - q1) * d <= 2 * (width.0 * c.1) * ppp.0 + d)
        by (nonlinear_arith)
        requires
            -d <= 2 * (n1 - q1 * d) <= d,
            -d <= 2 * (n2 - q2 * d) <= d,
            n2 - n1 == 2 * (width.0 * c.1) * ppp.0,
    ;
    assert(width.0 * ppp.0 - width.1 * ppp.1 <= width.1 * ppp.1 * (q2 - q1) <= width.0 * ppp.0
        + width.1 * ppp.1) by (nonlinear_arith)
        requires
            2 * (width.0 * c.1) * ppp.0 - d <= (q2 - q1) * d <= 2 * (width.0 * c.1) * ppp.0 + d,
            d == (c.1 * (2 * width.1)) * ppp.1,
            0 < c.1,
            0 < width.1,
            0 < ppp.0,
            0 < ppp.1,
    ;
    assert(dw.0 * ppp.0 <= ppp.1 * dw.1 && (-dw.0) * ppp.0 <= ppp.1 * dw.1) by (nonlinear_arith)
        requires
            dw.0 == ((q2 * ppp.1) * ppp.0 - (q1 * ppp.1) * ppp.0) * width.1 - width.0 * (ppp.0
                * ppp.0),
            dw.1 == (ppp.0 * ppp.0) * width.1,
            width.0 * ppp.0 - width.1 * ppp.1 <= width.1 * ppp.1 * (q2 - q1) <= width.0 * ppp.0
                + width.1 * ppp.1,
            0 < width.1,
            0 < ppp.0,
            0 < ppp.1,
    ;
    assert(rle(dw, (ppp.1, ppp.0)));
    assert(rle(vw, (ppp.1, ppp.0)));
}

/// The extents (along the split axis) of the three regions a horizontal
/// split hands back: the pane after the separator, the separator strip,
/// and the pane before it.
pub open spec fn hsplit_extents(
    f: (int, int),
    delta: (int, int),
    extra: (int, int),
    width: (int, int),
    lo: (int, int),
    hi: (int, int),
    ppp: (int, int),
) -> ((int, int), (int, int), (int, int)) {
    let f2 = resolved_fraction(f, delta, extra, lo, hi);
    let sl = separator_lo(f2, width, lo, hi, ppp);
    let sh = separator_hi(f2, width, lo, hi, ppp);
    (rsub(hi, rmax(lo, sh)), rsub(sh, sl), rsub(rmin(hi, sl), lo))
}

/// The extents of the three regions a vertical split hands back: the pane
/// above the separator, the separator strip, and the pane below it.
pub open spec fn vsplit_extents(
    f: (int, int),
    delta: (int, int),
    extra: (int, int),
    width: (int, int),
    lo: (int, int),
    hi: (int, int),
    ppp: (int, int),
) -> ((int, int), (int, int), (int, int)) {
    let f2 = resolved_fraction(f, delta, extra, lo, hi);
    let sl = separator_lo(f2, width, lo, hi, ppp);
    let sh = separator_hi(f2, width, lo, hi, ppp);
    (rsub(rmin(hi, sl), lo), rsub(sh, sl), rsub(hi, rmax(lo, sh)))
}

/// Law: horizontal and vertical split resolution are mirror images.
/// Resolving a rect horizontally and resolving its transpose vertically,
/// with the same fraction, delta and style, give the same resolved
/// fraction, the same separator edges along the split axis, and regions of
/// the same extents, with the roles of the two panes exchanged: the pane
/// right of a horizontal separator mirrors the pane below a vertical one.
pub proof fn lemma_split_mirror_symmetric(
    f: (int, int),
    delta: (int, int),
    extra: (int, int),
    width: (int, int),
    lo: (int, int),
    hi: (int, int),
    ppp: (int, int),
)
    ensures
        hsplit_extents(f, delta, extra, width, lo, hi, ppp).0 == vsplit_extents(
            f,
            delta,
            extra,
            width,
            lo,
            hi,
            ppp,
        ).2,
        hsplit_extents(f, delta, extra, width, lo, hi, ppp).1 == vsplit_extents(
            f,
            delta,
            extra,
            width,
            lo,
            hi,
            ppp,
        ).1,
        hsplit_extents(f, delta, extra, width, lo, hi, ppp).2 == vsplit_extents(
            f,
            delta,
            extra,
            width,
            lo,
            hi,
            ppp,
        ).0,
{
}

} // verus!
