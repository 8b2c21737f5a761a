use dock_style::geometry::{Pos, Rect};
use dock_style::rational::Frac;
use dock_style::style::{Color, Style, StyleBuilder};
use dock_style::tab::TabBody;

fn header_rect() -> Rect {
    Rect::new(
        Pos::new(Frac::from_int(0), Frac::from_int(0)),
        Pos::new(Frac::from_int(100), Frac::from_int(24)),
    )
}

fn same(a: Frac, num: i128, den: i128) -> bool {
    a.num * den == num * a.den
}

fn title(
    style: &Style,
    focused: bool,
    active: bool,
    dragging: bool,
    hovered: bool,
    close_hovered: bool,
    close_down: bool,
    close_clicked: bool,
) -> dock_style::tab::TabTitle {
    style.tab_title(
        header_rect(),
        Frac::from_int(40),
        Frac::from_int(13),
        false,
        focused,
        active,
        dragging,
        hovered,
        close_hovered,
        close_down,
        close_clicked,
        Frac::from_int(2),
    )
}

#[test]
fn desired_size_widens_for_close_buttons() {
    // Text 40 x 13: glyph side 13 / 1.3 = 10, so width grows by exactly
    // the glyph plus the 5-unit gap.
    let with = StyleBuilder::new().show_close_buttons(true).build();
    let without = StyleBuilder::new().show_close_buttons(false).build();
    let (w1, h1) = with.tab_title_desired_size(Frac::from_int(40), Frac::from_int(13));
    let (w0, h0) = without.tab_title_desired_size(Frac::from_int(40), Frac::from_int(13));
    assert!(same(w1, 71, 1));
    assert!(same(w0, 56, 1));
    assert!(same(h1, 24, 1));
    assert!(same(h0, 24, 1));
    assert!(w0.num * w1.den < w1.num * w0.den);
}

#[test]
fn close_region_present_iff_active_or_hovered_and_enabled() {
    let style = StyleBuilder::new().show_close_buttons(true).build();
    assert!(title(&style, false, true, false, false, false, false, false).close.is_some());
    assert!(title(&style, false, false, false, true, false, false, false).close.is_some());
    assert!(title(&style, true, false, false, false, false, false, false).close.is_none());
    let hidden = StyleBuilder::new().show_close_buttons(false).build();
    assert!(title(&hidden, false, true, false, true, false, false, false).close.is_none());
}

#[test]
fn disabled_close_buttons_never_report_hover_or_click() {
    // With close buttons off the outputs are false regardless of what the
    // pointer does.
    let hidden = StyleBuilder::new().show_close_buttons(false).build();
    let out = title(&hidden, true, true, false, true, true, true, true);
    assert!(!out.close_hovered);
    assert!(!out.close_clicked);
}

#[test]
fn close_outputs_echo_region_state_when_present() {
    let style = StyleBuilder::new().show_close_buttons(true).build();
    let out = title(&style, false, true, false, false, true, false, true);
    assert!(out.close_hovered);
    assert!(out.close_clicked);
    let quiet = title(&style, false, true, false, false, false, false, false);
    assert!(!quiet.close_hovered);
    assert!(!quiet.close_clicked);
}

#[test]
fn active_tab_draws_three_sided_inset_fill() {
    let style = Style::default();
    let out = title(&style, false, true, false, false, false, false, false);
    match out.body {
        TabBody::Fill { outer, inner, outer_color, inner_color, .. } => {
            // One device pixel at scale 2 is half a logical unit.
            assert!(same(outer.min.x, -1, 2));
            assert!(same(outer.max.x, 201, 2));
            assert!(same(outer.min.y, 0, 1));
            assert!(same(outer.max.y, 24, 1));
            assert!(same(inner.min.x, 0, 1));
            assert!(same(inner.max.x, 100, 1));
            assert!(same(inner.min.y, 1, 2));
            assert!(same(inner.max.y, 24, 1));
            assert_eq!(outer_color, style.tab_outline_color);
            assert_eq!(inner_color, style.tab_background_color);
        }
        _ => panic!("active undragged tab must draw outline and fill"),
    }
}

#[test]
fn dragged_tab_draws_stroke_only_and_inactive_none() {
    let style = Style::default();
    let dragged = title(&style, false, true, true, false, false, false, false);
    match dragged.body {
        TabBody::Outline { frame, stroke_width, stroke_color, .. } => {
            assert_eq!(frame, header_rect());
            assert!(same(stroke_width, 1, 1));
            assert_eq!(stroke_color, style.tab_outline_color);
        }
        _ => panic!("active dragged tab must draw a stroked outline"),
    }
    let inactive = title(&style, false, false, false, false, false, false, false);
    assert_eq!(inactive.body, TabBody::Plain);
}

#[test]
fn close_button_geometry_and_colors() {
    let style = Style::default();
    let out = title(&style, false, true, false, false, true, false, false);
    let cb = out.close.expect("close button present on active tab");
    // Text 40 x 13 in a 100 x 24 header: glyph box is 10 x 10 centered at
    // (8 + 40 + 5 + 5, 12) = (58, 12).
    assert!(same(cb.rect.min.x, 53, 1));
    assert!(same(cb.rect.max.x, 63, 1));
    assert!(same(cb.rect.min.y, 7, 1));
    assert!(same(cb.rect.max.y, 17, 1));
    assert!(cb.draw_hover_bg);
    assert!(same(cb.bg_rounding, 2, 1));
    // The cross is inset by 1.75 units from the glyph box.
    assert!(same(cb.stroke_a.a.x, 219, 4));
    assert!(same(cb.stroke_a.a.y, 35, 4));
    assert!(same(cb.stroke_a.b.x, 245, 4));
    assert!(same(cb.stroke_a.b.y, 61, 4));
    assert!(same(cb.stroke_b.a.x, 245, 4));
    assert!(same(cb.stroke_b.a.y, 35, 4));
    assert!(same(cb.stroke_b.b.x, 219, 4));
    assert!(same(cb.stroke_b.b.y, 61, 4));
    assert_eq!(cb.color, style.close_tab_color);
    // Focused, or a pointer held down on the region, switches the color.
    let focused = title(&style, true, true, false, false, false, false, false);
    assert_eq!(focused.close.unwrap().color, style.close_tab_active_color);
    let held = title(&style, false, true, false, false, false, true, false);
    assert_eq!(held.close.unwrap().color, style.close_tab_active_color);
}

#[test]
fn label_color_respected_else_chosen_by_focus() {
    let style = Style::default();
    let out = title(&style, true, false, false, false, false, false, false);
    assert_eq!(out.text_color_override, Some(style.tab_text_color_focused));
    let unfocused = title(&style, false, false, false, false, false, false, false);
    assert_eq!(unfocused.text_color_override, Some(style.tab_text_color_unfocused));
    let own_color = style.tab_title(
        header_rect(),
        Frac::from_int(40),
        Frac::from_int(13),
        true,
        true,
        false,
        false,
        false,
        false,
        false,
        false,
        Frac::from_int(2),
    );
    assert_eq!(own_color.text_color_override, None);
    // Text anchors after the 8 x 5 inset.
    assert!(same(out.text_pos.x, 8, 1));
    assert!(same(out.text_pos.y, 5, 1));
}

#[test]
fn default_style_matches_host_theme_constants() {
    let style = Style::default();
    let black = egui::Color32::BLACK;
    assert_eq!(
        (style.border_color.r, style.border_color.g, style.border_color.b, style.border_color.a),
        (black.r(), black.g(), black.b(), black.a()),
    );
    let sel = egui::Color32::from_rgb(0, 191, 255).linear_multiply(0.5);
    assert_eq!(
        (
            style.selection_color.r,
            style.selection_color.g,
            style.selection_color.b,
            style.selection_color.a,
        ),
        (sel.r(), sel.g(), sel.b(), sel.a()),
    );
    let gray = egui::Color32::GRAY;
    assert_eq!(
        (
            style.close_tab_background_color.r,
            style.close_tab_background_color.g,
            style.close_tab_background_color.b,
        ),
        (gray.r(), gray.g(), gray.b()),
    );
    let dark = egui::Color32::DARK_GRAY;
    assert_eq!(style.tab_text_color_unfocused.g, dark.g());
    assert!(same(style.separator_width, 1, 1));
    assert!(same(style.separator_extra, 175, 1));
    assert!(style.show_close_buttons);
}

#[test]
fn builder_sets_every_field() {
    let c = Color::from_rgb(1, 2, 3);
    let style = StyleBuilder::new()
        .with_border_color(c)
        .with_border_width(Frac::from_int(7))
        .with_selection_color(c)
        .with_separator_width(Frac::from_int(3))
        .with_separator_extra(Frac::from_int(9))
        .with_separator_color(c)
        .with_tab_bar_background(c)
        .with_tab_outline_color(c)
        .with_tab_background_color(c)
        .with_close_tab_color(c)
        .with_close_tab_active_color_color(c)
        .with_close_tab_background_color_color(c)
        .show_close_buttons(false)
        .build();
    assert_eq!(style.border_color, c);
    assert!(same(style.border_width, 7, 1));
    assert_eq!(style.selection_color, c);
    assert!(same(style.separator_width, 3, 1));
    assert!(same(style.separator_extra, 9, 1));
    assert_eq!(style.separator_color, c);
    assert_eq!(style.tab_bar_background_color, c);
    assert_eq!(style.tab_outline_color, c);
    assert_eq!(style.tab_background_color, c);
    assert_eq!(style.close_tab_color, c);
    assert_eq!(style.close_tab_active_color, c);
    assert_eq!(style.close_tab_background_color, c);
    assert!(!style.show_close_buttons);
}

#[test]
fn from_egui_takes_theme_colors_and_keeps_defaults() {
    let palette = dock_style::style::HostPalette {
        selection: Color::from_rgba(10, 20, 30, 40),
        faint_bg: Color::from_rgb(1, 1, 1),
        active_bg_fill: Color::from_rgb(2, 2, 2),
        window_fill: Color::from_rgb(3, 3, 3),
        text: Color::from_rgb(4, 4, 4),
        strong_text: Color::from_rgb(5, 5, 5),
    };
    let style = Style::from_egui(&palette);
    assert_eq!(style.selection_color, palette.selection);
    assert_eq!(style.tab_bar_background_color, palette.faint_bg);
    assert_eq!(style.tab_outline_color, palette.active_bg_fill);
    assert_eq!(style.separator_color, palette.active_bg_fill);
    assert_eq!(style.border_color, palette.active_bg_fill);
    assert_eq!(style.close_tab_background_color, palette.active_bg_fill);
    assert_eq!(style.tab_background_color, palette.window_fill);
    assert_eq!(style.tab_text_color_unfocused, palette.text);
    assert_eq!(style.close_tab_color, palette.text);
    assert_eq!(style.tab_text_color_focused, palette.strong_text);
    assert_eq!(style.close_tab_active_color, palette.strong_text);
    // Untouched fields keep their defaults.
    assert!(same(style.separator_extra, 175, 1));
    assert!(style.show_close_buttons);
    assert!(style.padding.is_none());
}
