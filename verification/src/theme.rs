//! Colour theme and typography for the UI.

use vstd::prelude::*;

verus! {

/// Width of one glyph of the UI font in pixels.
pub const CHAR_W: i32 = 6;

/// Height of one line of glyphs in pixels.
pub const LINE_H: i32 = 10;

/// Standard 320×240 display (the T-Deck LCD in landscape).
pub const DISPLAY_W: i32 = 320;

pub const DISPLAY_H: i32 = 240;

/// An RGB565 colour: 5 bits of red, 6 of green, 5 of blue.
#[derive(Debug, Clone, Copy, PartialEq, Eq, Structural)]
pub struct Color {
    pub r: u8,
    pub g: u8,
    pub b: u8,
}

/// The colour `Color::new(r, g, b)` makes: each channel limited to its
/// width by dropping the unused high bits.
pub open spec fn rgb(r: u8, g: u8, b: u8) -> Color {
    Color { r: (r % 32) as u8, g: (g % 64) as u8, b: (b % 32) as u8 }
}

impl Color {
    /// Whether every channel fits its width.
    pub open spec fn wf(self) -> bool {
        self.r < 32 && self.g < 64 && self.b < 32
    }

    /// A colour from its channels; too large values lose their high bits.
    pub fn new(r: u8, g: u8, b: u8) -> (c: Color)
        ensures
            c == rgb(r, g, b),
            c.wf(),
    {
        Color { r: r % 32, g: g % 64, b: b % 32 }
    }

    pub fn black() -> (c: Color)
        ensures
            c == rgb(0, 0, 0),
    {
        Color::new(0, 0, 0)
    }

    pub fn white() -> (c: Color)
        ensures
            c == rgb(31, 63, 31),
    {
        Color::new(31, 63, 31)
    }
}

/// Colour palette and cell size used by all screens.
#[derive(Debug, Clone, Copy)]
pub struct Theme {
    pub background: Color,
    pub surface: Color,
    pub header: Color,
    pub header_text: Color,
    pub primary: Color,
    pub accent: Color,
    pub text: Color,
    pub text_dim: Color,
    pub selection: Color,
    pub selection_text: Color,
    pub border: Color,
    pub danger: Color,
    pub ok: Color,
    pub char_w: i32,
    pub line_h: i32,
}

impl Theme {
    /// The cell size is that of the one font the UI draws with (6×10).
    pub open spec fn wf(self) -> bool {
        self.char_w == CHAR_W && self.line_h == LINE_H
    }

    /// How many characters fit on a line of the given width.
    pub fn chars_per_line(&self, width_px: i32) -> (r: usize)
        requires
            self.wf(),
        ensures
            r as nat == crate::widgets::cells_fit(width_px, CHAR_W),
    {
        crate::widgets::chars_per_line(width_px, self.char_w)
    }

    /// How many lines of text fit in the given height.
    pub fn lines_fit(&self, height_px: i32) -> (r: usize)
        requires
            self.wf(),
        ensures
            r as nat == crate::widgets::cells_fit(height_px, LINE_H),
    {
        crate::widgets::lines_fit(height_px, self.line_h)
    }
}

impl Default for Theme {
    fn default() -> (t: Self)
        ensures
            t.wf(),
            t.background == rgb(4, 5, 7),
            t.surface == rgb(12, 14, 18),
            t.header == rgb(7, 13, 19),
            t.header_text == rgb(23, 27, 31),
            t.primary == rgb(0, 24, 31),
            t.accent == rgb(0, 31, 31),
            t.text == rgb(29, 31, 31),
            t.text_dim == rgb(21, 25, 28),
            t.selection == rgb(0, 30, 38),
            t.selection_text == rgb(31, 31, 31),
            t.border == rgb(19, 23, 27),
            t.danger == rgb(31, 14, 14),
            t.ok == rgb(12, 31, 14),
    {
        Theme {
            // Near-black blue background for comfortable contrast on the LCD.
            background: Color::new(4, 5, 7),
            surface: Color::new(12, 14, 18),
            header: Color::new(7, 13, 19),
            header_text: Color::new(23, 27, 31),
            primary: Color::new(0, 24, 31),
            accent: Color::new(0, 31, 31),
            text: Color::new(29, 31, 31),
            text_dim: Color::new(21, 25, 28),
            selection: Color::new(0, 30, 38),
            selection_text: Color::new(31, 31, 31),
            border: Color::new(19, 23, 27),
            danger: Color::new(31, 14, 14),
            ok: Color::new(12, 31, 14),
            char_w: CHAR_W,
            line_h: LINE_H,
        }
    }
}

} // verus!
