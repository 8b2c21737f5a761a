use crate::rational::Frac;
use vstd::prelude::*;

verus! {

/// A color in 8-bit premultiplied sRGBA, matching the host toolkit's
/// `Color32` byte layout.
#[derive(Clone, Copy, Debug, PartialEq, Eq, Structural)]
pub struct Color {
    pub r: u8,
    pub g: u8,
    pub b: u8,
    pub a: u8,
}

impl Color {
    pub fn from_rgb(r: u8, g: u8, b: u8) -> (c: Color)
        ensures
            c == (Color { r, g, b, a: 255 }),
    {
        Color { r, g, b, a: 255 }
    }

    pub fn from_rgba(r: u8, g: u8, b: u8, a: u8) -> (c: Color)
        ensures
            c == (Color { r, g, b, a }),
    {
        Color { r, g, b, a }
    }
}

/// Indentation from the edges of a window, one amount per side.
#[derive(Clone, Copy, Debug, PartialEq, Eq, Structural)]
pub struct Margin {
    pub left: Frac,
    pub right: Frac,
    pub top: Frac,
    pub bottom: Frac,
}

/// Corner rounding radii of a rectangle.
#[derive(Clone, Copy, Debug, PartialEq, Eq, Structural)]
pub struct Rounding {
    pub nw: Frac,
    pub ne: Frac,
    pub sw: Frac,
    pub se: Frac,
}

/// Specifies the look and feel of the tabbed docking panels: a passive
/// bundle of rendering parameters shared by the split resolver and the tab
/// header renderer.
#[derive(Clone, Copy, Debug, PartialEq, Eq, Structural)]
pub struct Style {
    pub padding: Option<Margin>,

    pub border_color: Color,
    pub border_width: Frac,

    /// Color used when previewing where a tab will end up.
    pub selection_color: Color,

    pub separator_width: Frac,
    pub separator_extra: Frac,
    pub separator_color: Color,

    pub tab_bar_background_color: Color,

    pub tab_outline_color: Color,
    pub tab_rounding: Rounding,
    pub tab_background_color: Color,

    pub tab_text_color_unfocused: Color,
    pub tab_text_color_focused: Color,

    pub close_tab_color: Color,
    pub close_tab_active_color: Color,
    pub close_tab_background_color: Color,
    pub show_close_buttons: bool,
}

/// The colors the host theme supplies when a style is derived from it.
/// `selection` arrives already dimmed to half opacity by the host bridge,
/// since that color arithmetic happens in the host's linear color space.
#[derive(Clone, Copy, Debug, PartialEq, Eq, Structural)]
pub struct HostPalette {
    pub selection: Color,
    pub faint_bg: Color,
    pub active_bg_fill: Color,
    pub window_fill: Color,
    pub text: Color,
    pub strong_text: Color,
}

pub open spec fn frac_int(n: int) -> Frac {
    Frac { num: n as i128, den: 1 }
}

impl Style {
    /// The default look: black hairlines, white tab faces, a 1-unit
    /// separator kept 175 units clear of either edge, and a half-opaque
    /// light blue drop preview.
    pub open spec fn default_spec() -> Style {
        Style {
            padding: None,
            border_color: Color { r: 0, g: 0, b: 0, a: 255 },
            border_width: frac_int(0),
            selection_color: Color { r: 0, g: 140, b: 188, a: 128 },
            separator_width: frac_int(1),
            separator_extra: frac_int(175),
            separator_color: Color { r: 0, g: 0, b: 0, a: 255 },
            tab_bar_background_color: Color { r: 255, g: 255, b: 255, a: 255 },
            tab_outline_color: Color { r: 0, g: 0, b: 0, a: 255 },
            tab_rounding: Rounding {
                nw: frac_int(0),
                ne: frac_int(0),
                sw: frac_int(0),
                se: frac_int(0),
            },
            tab_background_color: Color { r: 255, g: 255, b: 255, a: 255 },
            tab_text_color_unfocused: Color { r: 96, g: 96, b: 96, a: 255 },
            tab_text_color_focused: Color { r: 0, g: 0, b: 0, a: 255 },
            close_tab_color: Color { r: 255, g: 255, b: 255, a: 255 },
            close_tab_active_color: Color { r: 255, g: 255, b: 255, a: 255 },
            close_tab_background_color: Color { r: 160, g: 160, b: 160, a: 255 },
            show_close_buttons: true,
        }
    }

    /// Derives relevant fields from the host theme's palette and sets the
    /// remaining fields to their default values.
    ///
    /// Fields overwritten by the palette are:
    /// - `selection_color`
    /// - `tab_bar_background_color`
    /// - `tab_outline_color`
    /// - `tab_background_color`
    /// - `separator_color`
    /// - `border_color`
    /// - `close_tab_background_color`
    /// - `close_tab_color`
    /// - `close_tab_active_color`
    pub fn from_egui(host: &HostPalette) -> (r: Self)
        ensures
            r == (Style {
                selection_color: host.selection,
                tab_bar_background_color: host.faint_bg,
                tab_outline_color: host.active_bg_fill,
                tab_background_color: host.window_fill,
                tab_text_color_unfocused: host.text,
                tab_text_color_focused: host.strong_text,
                separator_color: host.active_bg_fill,
                border_color: host.active_bg_fill,
                close_tab_background_color: host.active_bg_fill,
                close_tab_color: host.text,
                close_tab_active_color: host.strong_text,
                ..Style::default_spec()
            }),
    {
        let mut r = Style::default();
        r.selection_color = host.selection;
        r.tab_bar_background_color = host.faint_bg;
        r.tab_outline_color = host.active_bg_fill;
        r.tab_background_color = host.window_fill;
        r.tab_text_color_unfocused = host.text;
        r.tab_text_color_focused = host.strong_text;
        r.separator_color = host.active_bg_fill;
        r.border_color = host.active_bg_fill;
        r.close_tab_background_color = host.active_bg_fill;
        r.close_tab_color = host.text;
        r.close_tab_active_color = host.strong_text;
        r
    }
}

impl Default for Style {
    fn default() -> (r: Self)
        ensures
            r == Style::default_spec(),
    {
        Style {
            padding: None,
            border_color: Color::from_rgb(0, 0, 0),
            border_width: Frac::from_int(0),
            selection_color: Color::from_rgba(0, 140, 188, 128),
            separator_width: Frac::from_int(1),
            separator_extra: Frac::from_int(175),
            separator_color: Color::from_rgb(0, 0, 0),
            tab_bar_background_color: Color::from_rgb(255, 255, 255),
            tab_outline_color: Color::from_rgb(0, 0, 0),
            tab_rounding: Rounding {
                nw: Frac::from_int(0),
                ne: Frac::from_int(0),
                sw: Frac::from_int(0),
                se: Frac::from_int(0),
            },
            tab_background_color: Color::from_rgb(255, 255, 255),
            tab_text_color_unfocused: Color::from_rgb(96, 96, 96),
            tab_text_color_focused: Color::from_rgb(0, 0, 0),
            close_tab_color: Color::from_rgb(255, 255, 255),
            close_tab_active_color: Color::from_rgb(255, 255, 255),
            close_tab_background_color: Color::from_rgb(160, 160, 160),
            show_close_buttons: true,
        }
    }
}

/// Chained setters over a `Style`, ending in `build`.
pub struct StyleBuilder {
    style: Style,
}

impl StyleBuilder {
    pub closed spec fn style_spec(self) -> Style {
        self.style
    }

    pub fn new() -> (r: Self)
        ensures
            r.style_spec() == Style::default_spec(),
    {
        StyleBuilder { style: Style::default() }
    }

    /// Sets `padding` to indent from the edges of the window. By default
    /// it is `None`.
    pub fn with_padding(self, padding: Option<Margin>) -> (r: Self)
        ensures
            r.style_spec() == (Style { padding, ..self.style_spec() }),
    {
        let mut s = self;
        s.style.padding = padding;
        s
    }

    /// Sets `border_color` for the window of the working area. By default
    /// it is black.
    pub fn with_border_color(self, border_color: Color) -> (r: Self)
        ensures
            r.style_spec() == (Style { border_color, ..self.style_spec() }),
    {
        let mut s = self;
        s.style.border_color = border_color;
        s
    }

    /// Sets `border_width` for the border. By default it is 0.
    pub fn with_border_width(self, border_width: Frac) -> (r: Self)
        ensures
            r.style_spec() == (Style { border_width, ..self.style_spec() }),
    {
        let mut s = self;
        s.style.border_width = border_width;
        s
    }

    /// Sets `selection_color` for the placing area of the tab where this
    /// tab is targeted on it. By default it is light blue at half opacity.
    pub fn with_selection_color(self, selection_color: Color) -> (r: Self)
        ensures
            r.style_spec() == (Style { selection_color, ..self.style_spec() }),
    {
        let mut s = self;
        s.style.selection_color = selection_color;
        s
    }

    /// Sets `separator_width` for the rectangle separator between nodes.
    /// By default it is 1.
    pub fn with_separator_width(self, separator_width: Frac) -> (r: Self)
        ensures
            r.style_spec() == (Style { separator_width, ..self.style_spec() }),
    {
        let mut s = self;
        s.style.separator_width = separator_width;
        s
    }

    /// Sets `separator_extra`: how close the separator may approach either
    /// edge. By default it is 175; a bigger value allows less offset for
    /// the current window size.
    pub fn with_separator_extra(self, separator_extra: Frac) -> (r: Self)
        ensures
            r.style_spec() == (Style { separator_extra, ..self.style_spec() }),
    {
        let mut s = self;
        s.style.separator_extra = separator_extra;
        s
    }

    /// Sets `separator_color` for the rectangle separator. By default it
    /// is black.
    pub fn with_separator_color(self, separator_color: Color) -> (r: Self)
        ensures
            r.style_spec() == (Style { separator_color, ..self.style_spec() }),
    {
        let mut s = self;
        s.style.separator_color = separator_color;
        s
    }

    /// Sets `tab_bar_background_color` for the color of the tab bar. By
    /// default it is white.
    pub fn with_tab_bar_background(self, tab_bar_background_color: Color) -> (r: Self)
        ensures
            r.style_spec() == (Style { tab_bar_background_color, ..self.style_spec() }),
    {
        let mut s = self;
        s.style.tab_bar_background_color = tab_bar_background_color;
        s
    }

    /// Sets `tab_outline_color` for the outline color of tabs. By default
    /// it is black.
    pub fn with_tab_outline_color(self, tab_outline_color: Color) -> (r: Self)
        ensures
            r.style_spec() == (Style { tab_outline_color, ..self.style_spec() }),
    {
        let mut s = self;
        s.style.tab_outline_color = tab_outline_color;
        s
    }

    /// Sets `tab_rounding` for the tab rounding.
    pub fn with_tab_rounding(self, tab_rounding: Rounding) -> (r: Self)
        ensures
            r.style_spec() == (Style { tab_rounding, ..self.style_spec() }),
    {
        let mut s = self;
        s.style.tab_rounding = tab_rounding;
        s
    }

    /// Sets `tab_background_color` for the current tab background color.
    pub fn with_tab_background_color(self, tab_background: Color) -> (r: Self)
        ensures
            r.style_spec() == (Style {
                tab_background_color: tab_background,
                ..self.style_spec()
            }),
    {
        let mut s = self;
        s.style.tab_background_color = tab_background;
        s
    }

    /// Sets `close_tab_color` for the close tab button color.
    pub fn with_close_tab_color(self, close_tab_color: Color) -> (r: Self)
        ensures
            r.style_spec() == (Style { close_tab_color, ..self.style_spec() }),
    {
        let mut s = self;
        s.style.close_tab_color = close_tab_color;
        s
    }

    /// Sets `close_tab_active_color` for the active close tab button color.
    pub fn with_close_tab_active_color_color(self, close_tab_active_color: Color) -> (r: Self)
        ensures
            r.style_spec() == (Style { close_tab_active_color, ..self.style_spec() }),
    {
        let mut s = self;
        s.style.close_tab_active_color = close_tab_active_color;
        s
    }

    /// Sets `close_tab_background_color` for the background close tab
    /// button color.
    pub fn with_close_tab_background_color_color(
        self,
        close_tab_background_color: Color,
    ) -> (r: Self)
        ensures
            r.style_spec() == (Style { close_tab_background_color, ..self.style_spec() }),
    {
        let mut s = self;
        s.style.close_tab_background_color = close_tab_background_color;
        s
    }

    /// Shows or hides the tab close buttons.
    pub fn show_close_buttons(self, show_close_buttons: bool) -> (r: Self)
        ensures
            r.style_spec() == (Style { show_close_buttons, ..self.style_spec() }),
    {
        let mut s = self;
        s.style.show_close_buttons = show_close_buttons;
        s
    }

    /// Returns a `Style` with the set values.
    pub fn build(self) -> (r: Style)
        ensures
            r == self.style_spec(),
    {
        self.style
    }
}

impl Default for StyleBuilder {
    fn default() -> (r: Self)
        ensures
            r.style_spec() == Style::default_spec(),
    {
        StyleBuilder { style: Style::default() }
    }
}

} // verus!
