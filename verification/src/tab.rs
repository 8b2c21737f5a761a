use crate::geometry::{Pos, Rect};
use crate::rational::{lemma_op_fits, radd, rhalf, rmul, rsub, Frac};
use crate::split::{coord_frac, ratio_frac};
use crate::style::{Color, Rounding, Style};
use vstd::prelude::*;

verus! {

/// The close-button glyph is square, its side 1/1.3 of the shaped text
/// height.
pub open spec fn close_glyph_size(text_h: (int, int)) -> (int, int) {
    rmul(text_h, (10int, 13int))
}

/// The tab header's desired width: text width plus the 8-unit horizontal
/// offset on both sides, and room for the close glyph and the 5-unit
/// text-to-glyph gap when close buttons are enabled.
pub open spec fn tab_title_width(show_close: bool, text_w: (int, int), text_h: (int, int)) -> (
    int,
    int,
) {
    if show_close {
        radd(radd(text_w, (16int, 1int)), radd(close_glyph_size(text_h), (5int, 1int)))
    } else {
        radd(text_w, (16int, 1int))
    }
}

/// The close glyph's center: immediately right of the text, vertically
/// centered in the header.
pub open spec fn close_center_x(min_x: (int, int), text_w: (int, int), text_h: (int, int)) -> (
    int,
    int,
) {
    radd(min_x, radd(radd(radd((8int, 1int), text_w), (5int, 1int)), rhalf(close_glyph_size(text_h))))
}

pub open spec fn close_center_y(min_y: (int, int), max_y: (int, int)) -> (int, int) {
    radd(min_y, rhalf(rsub(max_y, min_y)))
}

/// A straight line segment between two points.
#[derive(Clone, Copy, Debug, PartialEq, Eq, Structural)]
pub struct Segment {
    pub a: Pos,
    pub b: Pos,
}

/// What the header body shows behind the text.
#[derive(Clone, Copy, Debug, PartialEq, Eq, Structural)]
pub enum TabBody {
    /// Inactive tab: nothing is drawn, the tab bar background shows.
    Plain,
    /// Active, not dragged: an outline-colored rectangle behind a
    /// background-colored one inset by one device pixel on the left, right
    /// and top, leaving the bottom edge open.
    Fill { outer: Rect, inner: Rect, outer_color: Color, inner_color: Color, fill_rounding: Rounding },
    /// Active and being dragged: a stroked outline only, no fill.
    Outline { frame: Rect, stroke_width: Frac, stroke_color: Color, outline_rounding: Rounding },
}

/// The close button's geometry and colors for this frame.
#[derive(Clone, Copy, Debug, PartialEq, Eq, Structural)]
pub struct CloseButton {
    /// The glyph box, which is also the button's hit region.
    pub rect: Rect,
    /// Draw a rounded background behind the glyph (the region is hovered).
    pub draw_hover_bg: bool,
    /// Corner rounding of that background.
    pub bg_rounding: Frac,
    /// First diagonal of the cross, inset from the glyph box.
    pub stroke_a: Segment,
    /// Second diagonal of the cross.
    pub stroke_b: Segment,
    pub stroke_width: Frac,
    pub color: Color,
}

/// Everything the tab header draws and reports this frame, beyond the
/// header allocation itself.
#[derive(Clone, Copy, Debug, PartialEq, Eq, Structural)]
pub struct TabTitle {
    pub body: TabBody,
    /// Where the label is anchored (left-top, after the 8 by 5 inset).
    pub text_pos: Pos,
    /// `None` respects a color the label carries itself; otherwise the
    /// focused or unfocused tab text color.
    pub text_color_override: Option<Color>,
    pub close: Option<CloseButton>,
    pub close_hovered: bool,
    pub close_clicked: bool,
}

impl Style {
    /// The size the tab header asks the host to allocate: the shaped text
    /// size padded by the fixed offsets, widened for the close button when
    /// close buttons are enabled, at the fixed header height of 24.
    pub fn tab_title_desired_size(&self, text_width: Frac, text_height: Frac) -> (r: (Frac, Frac))
        requires
            coord_frac(text_width),
            coord_frac(text_height),
            0 <= text_width.num,
            0 <= text_height.num,
        ensures
            r.0.v() == tab_title_width(self.show_close_buttons, text_width.v(), text_height.v()),
            r.1.v() == (24int, 1int),
            r.0.wf(),
            r.1.wf(),
    {
        proof {
            lemma_op_fits(text_width, Frac { num: 16, den: 1 }, 0x100000, 0x20, 16, 1);
        }
        let base = text_width.add(Frac::from_int(16));
        let w = if self.show_close_buttons {
            proof {
                lemma_op_fits(text_height, Frac { num: 10, den: 13 }, 0x100000, 0x20, 10, 13);
            }
            let glyph = text_height.mul(Frac::new(10, 13));
            proof {
                lemma_op_fits(glyph, Frac { num: 5, den: 1 }, 0xa00000, 0x200, 5, 1);
            }
            let widen = glyph.add(Frac::from_int(5));
            proof {
                lemma_op_fits(base, widen, 0x300000, 0x20, 0xb00000, 0x200);
            }
            base.add(widen)
        } else {
            base
        };
        (w, Frac::from_int(24))
    }

    /// Draw-and-hit-test decisions for one tab header occupying `rect`.
    ///
    /// The host supplies the shaped text size, whether the label carries
    /// its own color, the header's hover state, and - when a close region
    /// was registered - that region's hover, pointer-down and click state.
    /// When no close region exists this frame, the reported `close_hovered`
    /// and `close_clicked` are both false.
    pub fn tab_title(
        &self,
        rect: Rect,
        text_width: Frac,
        text_height: Frac,
        label_has_color: bool,
        focused: bool,
        active: bool,
        is_being_dragged: bool,
        hovered: bool,
        close_hovered: bool,
        close_pointer_down: bool,
        close_clicked: bool,
        ppp: Frac,
    ) -> (r: TabTitle)
        requires
            coord_frac(rect.min.x),
            coord_frac(rect.min.y),
            coord_frac(rect.max.x),
            coord_frac(rect.max.y),
            coord_frac(text_width),
            coord_frac(text_height),
            0 <= text_width.num,
            0 <= text_height.num,
            ratio_frac(ppp),
        ensures
            r.close is Some <==> (active || hovered) && self.show_close_buttons,
            r.close is Some ==> r.close_hovered == close_hovered && r.close_clicked
                == close_clicked,
            r.close is None ==> !r.close_hovered && !r.close_clicked,
            active && !is_being_dragged ==> r.body is Fill,
            active && is_being_dragged ==> r.body is Outline,
            !active ==> r.body == TabBody::Plain,
            r.body matches TabBody::Fill { outer, inner, outer_color, inner_color, fill_rounding }
                ==> {
                &&& outer.min.x.v() == rsub(rect.min.x.v(), (ppp.den as int, ppp.num as int))
                &&& outer.max.x.v() == radd(rect.max.x.v(), (ppp.den as int, ppp.num as int))
                &&& outer.min.y == rect.min.y && outer.max.y == rect.max.y
                &&& inner.min.x.v() == radd(outer.min.x.v(), (ppp.den as int, ppp.num as int))
                &&& inner.max.x.v() == rsub(outer.max.x.v(), (ppp.den as int, ppp.num as int))
                &&& inner.min.y.v() == radd(rect.min.y.v(), (ppp.den as int, ppp.num as int))
                &&& inner.max.y == rect.max.y
                &&& outer_color == self.tab_outline_color
                &&& inner_color == self.tab_background_color
                &&& fill_rounding == self.tab_rounding
            },
            r.body matches TabBody::Outline { frame, stroke_width, stroke_color, outline_rounding }
                ==> {
                &&& frame == rect
                &&& stroke_width.v() == (1int, 1int)
                &&& stroke_color == self.tab_outline_color
                &&& outline_rounding == self.tab_rounding
            },
            r.text_pos.x.v() == radd(rect.min.x.v(), (8int, 1int)),
            r.text_pos.y.v() == radd(rect.min.y.v(), (5int, 1int)),
            label_has_color ==> r.text_color_override is None,
            !label_has_color && focused ==> r.text_color_override == Some(
                self.tab_text_color_focused,
            ),
            !label_has_color && !focused ==> r.text_color_override == Some(
                self.tab_text_color_unfocused,
            ),
            r.close matches Some(cb) ==> {
                &&& cb.rect.min.x.v() == rsub(
                    close_center_x(rect.min.x.v(), text_width.v(), text_height.v()),
                    rhalf(close_glyph_size(text_height.v())),
                )
                &&& cb.rect.max.x.v() == radd(
                    close_center_x(rect.min.x.v(), text_width.v(), text_height.v()),
                    rhalf(close_glyph_size(text_height.v())),
                )
                &&& cb.rect.min.y.v() == rsub(
                    close_center_y(rect.min.y.v(), rect.max.y.v()),
                    rhalf(close_glyph_size(text_height.v())),
                )
                &&& cb.rect.max.y.v() == radd(
                    close_center_y(rect.min.y.v(), rect.max.y.v()),
                    rhalf(close_glyph_size(text_height.v())),
                )
                &&& cb.draw_hover_bg == close_hovered
                &&& cb.bg_rounding.v() == (2int, 1int)
                &&& cb.stroke_a.a.x.v() == radd(cb.rect.min.x.v(), (7int, 4int))
                &&& cb.stroke_a.a.y.v() == radd(cb.rect.min.y.v(), (7int, 4int))
                &&& cb.stroke_a.b.x.v() == rsub(cb.rect.max.x.v(), (7int, 4int))
                &&& cb.stroke_a.b.y.v() == rsub(cb.rect.max.y.v(), (7int, 4int))
                &&& cb.stroke_b.a.x.v() == rsub(cb.rect.max.x.v(), (7int, 4int))
                &&& cb.stroke_b.a.y.v() == radd(cb.rect.min.y.v(), (7int, 4int))
                &&& cb.stroke_b.b.x.v() == radd(cb.rect.min.x.v(), (7int, 4int))
                &&& cb.stroke_b.b.y.v() == rsub(cb.rect.max.y.v(), (7int, 4int))
                &&& cb.stroke_width.v() == (1int, 1int)
                &&& cb.color == (if focused || close_pointer_down {
                    self.close_tab_active_color
                } else {
                    self.close_tab_color
                })
            },
    {
        let px = ppp.recip();
        let body = if active && !is_being_dragged {
            proof {
                lemma_op_fits(rect.min.x, px, 0x100000, 0x20, 0x20, 0x400);
                lemma_op_fits(rect.max.x, px, 0x100000, 0x20, 0x20, 0x400);
            }
            let o_min_x = rect.min.x.sub(px);
            let o_max_x = rect.max.x.add(px);
            proof {
                lemma_op_fits(o_min_x, px, 0x8000_0000, 0x8000, 0x20, 0x400);
                lemma_op_fits(o_max_x, px, 0x8000_0000, 0x8000, 0x20, 0x400);
                lemma_op_fits(rect.min.y, px, 0x100000, 0x20, 0x20, 0x400);
            }
            TabBody::Fill {
                outer: Rect {
                    min: Pos { x: o_min_x, y: rect.min.y },
                    max: Pos { x: o_max_x, y: rect.max.y },
                },
                inner: Rect {
                    min: Pos { x: o_min_x.add(px), y: rect.min.y.add(px) },
                    max: Pos { x: o_max_x.sub(px), y: rect.max.y },
                },
                outer_color: self.tab_outline_color,
                inner_color: self.tab_background_color,
                fill_rounding: self.tab_rounding,
            }
        } else if active {
            TabBody::Outline {
                frame: rect,
                stroke_width: Frac::from_int(1),
                stroke_color: self.tab_outline_color,
                outline_rounding: self.tab_rounding,
            }
        } else {
            TabBody::Plain
        };
        proof {
            lemma_op_fits(rect.min.x, Frac { num: 8, den: 1 }, 0x100000, 0x20, 8, 1);
            lemma_op_fits(rect.min.y, Frac { num: 5, den: 1 }, 0x100000, 0x20, 5, 1);
        }
        let text_pos = Pos { x: rect.min.x.add(Frac::from_int(8)), y: rect.min.y.add(Frac::from_int(5)) };
        let text_color_override = if label_has_color {
            None
        } else if focused {
            Some(self.tab_text_color_focused)
        } else {
            Some(self.tab_text_color_unfocused)
        };
        if (active || hovered) && self.show_close_buttons {
            proof {
                lemma_op_fits(text_height, Frac { num: 10, den: 13 }, 0x100000, 0x20, 10, 13);
            }
            let glyph = text_height.mul(Frac::new(10, 13));
            let glyph_half = glyph.half();
            proof {
                lemma_op_fits(Frac { num: 8, den: 1 }, text_width, 8, 1, 0x100000, 0x20);
            }
            let u1 = Frac::from_int(8).add(text_width);
            proof {
                lemma_op_fits(u1, Frac { num: 5, den: 1 }, 0x300000, 0x20, 5, 1);
            }
            let u2 = u1.add(Frac::from_int(5));
            proof {
                lemma_op_fits(u2, glyph_half, 0x400000, 0x20, 0xa00000, 0x400);
            }
            let u3 = u2.add(glyph_half);
            proof {
                lemma_op_fits(rect.min.x, u3, 0x100000, 0x20, 0x2_0000_0000, 0x8000);
                lemma_op_fits(rect.max.y, rect.min.y, 0x100000, 0x20, 0x100000, 0x20);
            }
            let cx = rect.min.x.add(u3);
            let hh = rect.max.y.sub(rect.min.y);
            let hh_half = hh.half();
            proof {
                lemma_op_fits(rect.min.y, hh_half, 0x100000, 0x20, 0x4000000, 0x800);
            }
            let cy = rect.min.y.add(hh_half);
            proof {
                lemma_op_fits(cx, glyph_half, 0x80_0000_0000, 0x10_0000, 0xa00000, 0x400);
                lemma_op_fits(cy, glyph_half, 0x1_0000_0000, 0x1_0000, 0xa00000, 0x400);
            }
            let lo_x = cx.sub(glyph_half);
            let hi_x = cx.add(glyph_half);
            let lo_y = cy.sub(glyph_half);
            let hi_y = cy.add(glyph_half);
            let shrink = Frac::new(7, 4);
            proof {
                lemma_op_fits(lo_x, shrink, 0x4_0000_0000_0000, 0x4000_0000, 7, 4);
                lemma_op_fits(hi_x, shrink, 0x4_0000_0000_0000, 0x4000_0000, 7, 4);
                lemma_op_fits(lo_y, shrink, 0x800_0000_0000, 0x400_0000, 7, 4);
                lemma_op_fits(hi_y, shrink, 0x800_0000_0000, 0x400_0000, 7, 4);
            }
            let sa_x = lo_x.add(shrink);
            let sb_x = hi_x.sub(shrink);
            let sa_y = lo_y.add(shrink);
            let sb_y = hi_y.sub(shrink);
            let cb = CloseButton {
                rect: Rect { min: Pos { x: lo_x, y: lo_y }, max: Pos { x: hi_x, y: hi_y } },
                draw_hover_bg: close_hovered,
                bg_rounding: Frac::from_int(2),
                stroke_a: Segment { a: Pos { x: sa_x, y: sa_y }, b: Pos { x: sb_x, y: sb_y } },
                stroke_b: Segment { a: Pos { x: sb_x, y: sa_y }, b: Pos { x: sa_x, y: sb_y } },
                stroke_width: Frac::from_int(1),
                color: if focused || close_pointer_down {
                    self.close_tab_active_color
                } else {
                    self.close_tab_color
                },
            };
            TabTitle {
                body,
                text_pos,
                text_color_override,
                close: Some(cb),
                close_hovered,
                close_clicked,
            }
        } else {
            TabTitle {
                body,
                text_pos,
                text_color_override,
                close: None,
                close_hovered: false,
                close_clicked: false,
            }
        }
    }
}

} // verus!
