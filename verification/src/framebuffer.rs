//! A framebuffer that renders to the terminal as readable text.
//!
//! The UI draws a 6×10 monospace font. Each output cell of the terminal
//! corresponds to exactly one 6×10 font cell, and the renderer reconstructs
//! the actual glyph by matching the cell's pixel pattern against the font's
//! glyph patterns. Text therefore appears as real characters in the
//! terminal. Cells that match no glyph (solid fills, scrollbars, ...) fall
//! back to a luminance-mapped character. Every cell is coloured with ANSI
//! 256-colour so the whole screen still reads as a coherent image.

use vstd::prelude::*;

use crate::text::{append_chars, append_str, decimal, decimal_chars, string_of};
use crate::theme::{Color, rgb};

verus! {

/// Pixels in one 6×10 font cell.
pub const CELL_PIXELS: usize = 60;

/// The 60 low bits of a cell pattern.
pub const CELL_MASK: u64 = 0x0fff_ffff_ffff_ffff;

/// One glyph of the 6×10 font: bit `i` of `bits` is set when pixel `i` of
/// the cell (row-major) is ink.
#[derive(Debug, Clone, Copy)]
pub struct Glyph {
    pub ch: char,
    pub bits: u64,
}

/// 8-bit luminance of a colour: the mean of its channels scaled to 0..255.
pub open spec fn lum(c: Color) -> u8 {
    (((c.r as int) * 255 / 31 + (c.g as int) * 255 / 63 + (c.b as int) * 255 / 31) / 3) as u8
}

/// A channel value `v` of `max` scaled to 0..255 and then to 0..5.
pub open spec fn level6(v: u8) -> int {
    (v as int) * 5 / 255
}

/// The ANSI 256-colour palette entry closest to an RGB colour: its 6×6×6
/// colour cube.
pub open spec fn ansi_of(r: u8, g: u8, b: u8) -> u8 {
    (16 + 36 * level6(r) + 6 * level6(g) + level6(b)) as u8
}

/// The palette entry of the average colour of `n` pixels whose channels
/// (scaled to 0..255) sum to `r`, `g`, `b` (`n` taken as at least one).
pub open spec fn avg_ansi_of(r: u32, g: u32, b: u32, n: u32) -> u8 {
    let d: u32 = if n < 1 {
        1
    } else {
        n
    };
    ansi_of((r / d) as u8, (g / d) as u8, (b / d) as u8)
}

/// 8-bit luminance of an RGB565 colour (see [`lum`]).
pub fn lum8(c: Color) -> (r: u8)
    requires
        c.wf(),
    ensures
        r == lum(c),
{
    ((c.r as u16 * 255 / 31 + c.g as u16 * 255 / 63 + c.b as u16 * 255 / 31) / 3) as u8
}

/// Approximate an RGB colour with the ANSI 256-colour palette.
pub fn ansi256(r: u8, g: u8, b: u8) -> (c: u8)
    ensures
        c == ansi_of(r, g, b),
{
    let ir = ((r as u16 * 5) / 255) as u8;
    let ig = ((g as u16 * 5) / 255) as u8;
    let ib = ((b as u16 * 5) / 255) as u8;
    16 + 36 * ir + 6 * ig + ib
}

/// The palette entry of an average colour (see [`avg_ansi_of`]).
pub fn avg_ansi(r: u32, g: u32, b: u32, n: u32) -> (c: u8)
    ensures
        c == avg_ansi_of(r, g, b, n),
{
    let n = if n < 1 {
        1
    } else {
        n
    };
    ansi256((r / n) as u8, (g / n) as u8, (b / n) as u8)
}

/// What a cell's pixels add up to: its ink pattern, and for the ink
/// (brighter than the cell average) and background classes the sums of the
/// channels scaled to 0..255 and the pixel counts.
#[derive(Debug, Clone, Copy, PartialEq, Eq, Structural)]
pub struct CellSums {
    pub bits: u64,
    pub ir: u32,
    pub ig: u32,
    pub ib: u32,
    pub inn: u32,
    pub br: u32,
    pub bg: u32,
    pub bb: u32,
    pub bn: u32,
}

/// Channel `v` of width `max` scaled to 0..255.
pub open spec fn scaled(v: u8, max: int) -> int {
    (v as int) * 255 / max
}

/// The sums over the first `k` pixels of `cs` with average luminance `avg`.
pub open spec fn cell_sums(cs: Seq<Color>, avg: u8, k: nat) -> CellSums
    decreases k,
{
    if k == 0 {
        CellSums { bits: 0, ir: 0, ig: 0, ib: 0, inn: 0, br: 0, bg: 0, bb: 0, bn: 0 }
    } else {
        let s = cell_sums(cs, avg, (k - 1) as nat);
        let c = cs[k - 1];
        let r = scaled(c.r, 31);
        let g = scaled(c.g, 63);
        let b = scaled(c.b, 31);
        if lum(c) > avg {
            CellSums {
                bits: s.bits | (1u64 << ((k - 1) as u64)),
                ir: (s.ir + r) as u32,
                ig: (s.ig + g) as u32,
                ib: (s.ib + b) as u32,
                inn: (s.inn + 1) as u32,
                ..s
            }
        } else {
            CellSums {
                br: (s.br + r) as u32,
                bg: (s.bg + g) as u32,
                bb: (s.bb + b) as u32,
                bn: (s.bn + 1) as u32,
                ..s
            }
        }
    }
}

/// The sum of the luminances of the first `k` pixels.
pub open spec fn lum_sum(cs: Seq<Color>, k: nat) -> nat
    decreases k,
{
    if k == 0 {
        0
    } else {
        lum_sum(cs, (k - 1) as nat) + (lum(cs[k - 1]) as nat)
    }
}

/// Index of the first glyph among the first `k` whose pattern is `bits`.
pub open spec fn first_glyph(glyphs: Seq<Glyph>, bits: u64, k: int) -> Option<int>
    decreases k,
{
    if k <= 0 {
        None
    } else {
        match first_glyph(glyphs, bits, k - 1) {
            Some(i) => Some(i),
            None => if glyphs[k - 1].bits == bits {
                Some(k - 1)
            } else {
                None
            },
        }
    }
}

/// The luminance ramp of cells that match no glyph, darkest first.
pub open spec fn ramp() -> Seq<char> {
    seq![' ', '.', ':', '-', '=', '+', '*', '#', '%', '@']
}

/// The character and palette colour of a cell with pixels `cs`: a blank in
/// the background colour when no pixel is brighter than the average; else
/// the first glyph whose pattern is the ink pattern, in the ink colour;
/// else the first glyph whose pattern is the inverse (light text on a dark
/// highlight), in the background colour; else a ramp character for the
/// average luminance, in the background colour.
pub open spec fn cell_of(cs: Seq<Color>, glyphs: Seq<Glyph>) -> (char, u8) {
    let avg = (lum_sum(cs, 60) / 60) as u8;
    let s = cell_sums(cs, avg, 60);
    let back = avg_ansi_of(s.br, s.bg, s.bb, s.bn);
    if s.inn == 0 {
        (' ', back)
    } else {
        match first_glyph(glyphs, s.bits, glyphs.len() as int) {
            Some(k) => (glyphs[k].ch, avg_ansi_of(s.ir, s.ig, s.ib, s.inn)),
            None => match first_glyph(glyphs, !s.bits & CELL_MASK, glyphs.len() as int) {
                Some(k) => (glyphs[k].ch, back),
                None => (ramp()[(avg as int) * 10 / 256], back),
            },
        }
    }
}

/// The terminal text of one cell: its colour escape and its character.
pub open spec fn cell_text(cell: (char, u8)) -> Seq<char> {
    "\x1b[38;5;"@ + decimal(cell.1 as nat) + "m"@ + seq![cell.0]
}

/// The text of the first `k` cells of row `cy`.
pub open spec fn row_cells_text(f: FrameModel, cy: u32, glyphs: Seq<Glyph>, k: nat) -> Seq<char>
    decreases k,
{
    if k == 0 {
        Seq::empty()
    } else {
        row_cells_text(f, cy, glyphs, (k - 1) as nat) + cell_text(
            cell_of(cell_pixels(f, (k - 1) as u32, cy), glyphs),
        )
    }
}

/// The text of the first `k` rows of `cols` cells: each row starts with a
/// move to its absolute terminal row and ends by resetting the colour.
pub open spec fn rows_text(f: FrameModel, cols: nat, glyphs: Seq<Glyph>, k: nat) -> Seq<char>
    decreases k,
{
    if k == 0 {
        Seq::empty()
    } else {
        rows_text(f, cols, glyphs, (k - 1) as nat) + "\x1b["@ + decimal(k) + ";1H"@
            + row_cells_text(f, (k - 1) as u32, glyphs, cols) + "\x1b[0m"@
    }
}

/// Rows of cells drawn: those of the frame, clipped to the terminal.
pub open spec fn frame_rows(f: FrameModel, term_rows: u16) -> nat {
    let rows: nat = if f.height / 10 < 1 {
        1
    } else {
        (f.height / 10) as nat
    };
    if rows < term_rows {
        rows
    } else {
        term_rows as nat
    }
}

/// Columns of cells drawn: those of the frame, clipped to the terminal.
pub open spec fn frame_cols(f: FrameModel, term_cols: u16) -> nat {
    let cols: nat = if f.width / 6 < 1 {
        1
    } else {
        (f.width / 6) as nat
    };
    let term: nat = if term_cols < 1 {
        1
    } else {
        term_cols as nat
    };
    if cols < term {
        cols
    } else {
        term
    }
}

/// The terminal text of a frame: the cursor hidden, then every drawn row.
pub open spec fn frame_text(f: FrameModel, term_rows: u16, term_cols: u16, glyphs: Seq<Glyph>) -> Seq<char> {
    "\x1b[?25l"@ + rows_text(f, frame_cols(f, term_cols), glyphs, frame_rows(f, term_rows))
}

/// Abstract value of a [`Framebuffer`]: its size and its pixels, row by
/// row.
pub struct FrameModel {
    pub width: u32,
    pub height: u32,
    pub pixels: Seq<Color>,
}

/// An RGB565 framebuffer that renders to the terminal.
pub struct Framebuffer {
    width: u32,
    height: u32,
    buf: Vec<Color>,
}

impl View for Framebuffer {
    type V = FrameModel;

    closed spec fn view(&self) -> FrameModel {
        FrameModel { width: self.width, height: self.height, pixels: self.buf@ }
    }
}

/// The pixels of cell (`cx`, `cy`), row-major.
pub open spec fn cell_pixels(f: FrameModel, cx: u32, cy: u32) -> Seq<Color> {
    Seq::new(
        60,
        |i: int| f.pixels[(cy * 10 + i / 6) * (f.width as int) + cx * 6 + i % 6],
    )
}

/// The pixels of frame `f` after putting `color` at `x`, `y`: that pixel
/// set when the position lies inside the frame, nothing changed otherwise.
pub open spec fn put_pixels(f: FrameModel, x: i32, y: i32, color: Color) -> Seq<Color> {
    if 0 <= x < f.width && 0 <= y < f.height {
        f.pixels.update(y * f.width + x, color)
    } else {
        f.pixels
    }
}

/// A pixel reads back the colour last put at its position, and putting a
/// pixel leaves every other position as it was.
pub proof fn lemma_put_reads_back(f: FrameModel, x: i32, y: i32, color: Color, x2: i32, y2: i32)
    requires
        f.pixels.len() == f.width * f.height,
        0 <= x < f.width,
        0 <= y < f.height,
        0 <= x2 < f.width,
        0 <= y2 < f.height,
    ensures
        put_pixels(f, x, y, color)[y * f.width + x] == color,
        (x2 != x || y2 != y) ==> put_pixels(f, x, y, color)[y2 * f.width + x2] == f.pixels[y2
            * f.width + x2],
{
    let w = f.width as int;
    assert(0 <= y * w + x < w * f.height && 0 <= y2 * w + x2 < w * f.height) by (nonlinear_arith)
        requires
            0 <= x < w,
            0 <= y < f.height,
            0 <= x2 < w,
            0 <= y2 < f.height,
    ;
    assert((x2 != x || y2 != y) ==> y * w + x != y2 * w + x2) by (nonlinear_arith)
        requires
            0 <= x < w,
            0 <= x2 < w,
    ;
}

/// Whether pixel (`px`, `py`) lies in the rectangle at `x`, `y` of `w` ×
/// `h` pixels.
pub open spec fn in_rect(px: int, py: int, x: i32, y: i32, w: u32, h: u32) -> bool {
    x <= px < x + w && y <= py < y + h
}

/// The pixels of frame `f` after filling the rectangle at `x`, `y` of `w` ×
/// `h` with `color`: the positions of the frame inside the rectangle take
/// the colour, the others keep theirs.
pub open spec fn solid_pixels(f: FrameModel, x: i32, y: i32, w: u32, h: u32, color: Color) -> Seq<
    Color,
> {
    Seq::new(
        f.pixels.len(),
        |i: int|
            if in_rect(i % (f.width as int), i / (f.width as int), x, y, w, h) {
                color
            } else {
                f.pixels[i]
            },
    )
}

/// Filling a rectangle a second time with the same colour changes nothing:
/// redrawing a static screen gives the same frame.
pub proof fn lemma_fill_solid_idempotent(f: FrameModel, x: i32, y: i32, w: u32, h: u32, color: Color)
    ensures
        solid_pixels(
            FrameModel { width: f.width, height: f.height, pixels: solid_pixels(f, x, y, w, h, color) },
            x,
            y,
            w,
            h,
            color,
        ) == solid_pixels(f, x, y, w, h, color),
{
    let g = FrameModel { width: f.width, height: f.height, pixels: solid_pixels(f, x, y, w, h, color) };
    assert(solid_pixels(g, x, y, w, h, color) =~= solid_pixels(f, x, y, w, h, color));
}

/// `v`, or 0 where it is negative.
pub open spec fn clamp0(v: i32) -> int {
    if v < 0 {
        0
    } else {
        v as int
    }
}

/// The row length of a run of `width` pixels: at least one.
pub open spec fn run_width(width: u32) -> int {
    if width == 0 {
        1
    } else {
        width as int
    }
}

/// The pixels of frame `f` after writing `colors` row by row, in rows of
/// `run_width(width)` pixels, from column `clamp0(x)` of row `clamp0(y)`:
/// colour `i` goes to column `i % run_width(width)` and row
/// `i / run_width(width)` of the run; each position of the frame that a
/// colour reaches takes it, the others keep theirs.
pub open spec fn contiguous_pixels(
    f: FrameModel,
    x: i32,
    y: i32,
    width: u32,
    colors: Seq<Color>,
) -> Seq<Color> {
    Seq::new(
        f.pixels.len(),
        |i: int|
            {
                let dx = i % (f.width as int) - clamp0(x);
                let dy = i / (f.width as int) - clamp0(y);
                let wd = run_width(width);
                if 0 <= dx < wd && 0 <= dy && dy * wd + dx < colors.len() {
                    colors[dy * wd + dx]
                } else {
                    f.pixels[i]
                }
            },
    )
}

/// Whether every position of a run of `n` colours from `x`, `y` in rows of
/// `width` pixels has coordinates that fit an `i32`.
pub open spec fn contiguous_fits(x: i32, y: i32, width: u32, n: nat) -> bool {
    let wd = run_width(width);
    n == 0 || (clamp0(x) + (if n < wd {
        n as int
    } else {
        wd
    }) - 1 <= i32::MAX && clamp0(y) + (n - 1) / wd <= i32::MAX)
}

/// Position `k` of a `w` × `h` frame lies in column `k % w` of row `k / w`.
proof fn lemma_cell_of_index(k: int, w: int, h: int)
    requires
        0 <= k < w * h,
        h >= 0,
    ensures
        w > 0,
        0 <= k % w < w,
        0 <= k / w < h,
        k == (k / w) * w + k % w,
{
    assert(w > 0) by (nonlinear_arith)
        requires
            0 <= k < w * h,
            h >= 0,
    ;
    vstd::arithmetic::div_mod::lemma_fundamental_div_mod(k, w);
    vstd::arithmetic::div_mod::lemma_mod_pos_bound(k, w);
    vstd::arithmetic::div_mod::lemma_div_pos_is_pos(k, w);
    assert(k / w < h) by (nonlinear_arith)
        requires
            k == w * (k / w) + k % w,
            0 <= k % w,
            k < w * h,
            w > 0,
    ;
    assert((k / w) * w == w * (k / w)) by (nonlinear_arith);
}

/// Whether cell (`cx`, `cy`) lies inside a frame.
pub open spec fn cell_inside(f: FrameModel, cx: u32, cy: u32) -> bool {
    cx * 6 + 6 <= f.width && cy * 10 + 10 <= f.height
}

impl Framebuffer {
    /// The frame holds one pixel per position, every pixel a colour of the
    /// format, and both sizes fit the signed coordinates.
    pub closed spec fn wf(&self) -> bool {
        &&& self.buf@.len() == self.width * self.height
        &&& self.width * self.height <= u32::MAX
        &&& self.width <= i32::MAX
        &&& self.height <= i32::MAX
        &&& forall|i: int| 0 <= i < self.buf@.len() ==> (#[trigger] self.buf@[i]).wf()
    }

    /// A black `width`×`height` frame.
    pub fn new(width: u32, height: u32) -> (r: Self)
        requires
            width * height <= u32::MAX,
            width <= i32::MAX,
            height <= i32::MAX,
        ensures
            r.wf(),
            r@.width == width,
            r@.height == height,
            r@.pixels == Seq::new((width * height) as nat, |_i: int| rgb(0, 0, 0)),
    {
        let n = (width * height) as usize;
        let black = Color::black();
        let mut buf: Vec<Color> = Vec::new();
        let mut i: usize = 0;
        while i < n
            invariant
                i <= n,
                n == width * height,
                black == rgb(0, 0, 0),
                buf@ == Seq::new(i as nat, |_i: int| rgb(0, 0, 0)),
            decreases n - i,
        {
            buf.push(black);
            i += 1;
            assert(buf@ =~= Seq::new(i as nat, |_i: int| rgb(0, 0, 0)));
        }
        let r = Framebuffer { width, height, buf };
        assert(r.buf@.len() == width * height);
        r
    }

    /// Width in pixels.
    pub fn width(&self) -> (r: u32)
        ensures
            r == self@.width,
    {
        self.width
    }

    /// Height in pixels.
    pub fn height(&self) -> (r: u32)
        ensures
            r == self@.height,
    {
        self.height
    }

    /// Set the pixel at `x`, `y`; positions outside the frame are ignored.
    pub fn put(&mut self, x: i32, y: i32, color: Color)
        requires
            old(self).wf(),
            color.wf(),
        ensures
            final(self).wf(),
            final(self)@.width == old(self)@.width,
            final(self)@.height == old(self)@.height,
            final(self)@.pixels == put_pixels(old(self)@, x, y, color),
            final(self)@.pixels.len() == old(self)@.pixels.len(),
    {
        if x < 0 || y < 0 || x >= self.width as i32 || y >= self.height as i32 {
            return;
        }
        assert((y as int) * (self.width as int) + (x as int) < (self.width as int) * (
        self.height as int)) by (nonlinear_arith)
            requires
                0 <= x < self.width,
                0 <= y < self.height,
        ;
        let idx = (y as u32 * self.width + x as u32) as usize;
        self.buf.set(idx, color);
    }

    /// Fill the whole frame with `color`.
    pub fn clear(&mut self, color: Color)
        requires
            old(self).wf(),
            color.wf(),
        ensures
            final(self).wf(),
            final(self)@.width == old(self)@.width,
            final(self)@.height == old(self)@.height,
            final(self)@.pixels == Seq::new(old(self)@.pixels.len(), |_i: int| color),
    {
        let n = self.buf.len();
        let mut i: usize = 0;
        while i < n
            invariant
                i <= n,
                n == self.buf@.len(),
                self.buf@.len() == self.width * self.height,
                self.width * self.height <= u32::MAX,
                self.width <= i32::MAX,
                self.height <= i32::MAX,
                self.width == old(self).width,
                self.height == old(self).height,
                forall|k: int| 0 <= k < i ==> self.buf@[k] == color,
                color.wf(),
                forall|k: int| 0 <= k < n ==> (#[trigger] self.buf@[k]).wf(),
            decreases n - i,
        {
            self.buf.set(i, color);
            i += 1;
        }
        assert(self.buf@ =~= Seq::new(n as nat, |_i: int| color));
    }

    /// Fill the rectangle at `x`, `y` of `w` × `h` pixels with `color`,
    /// clipped to the frame.
    pub fn fill_solid(&mut self, x: i32, y: i32, w: u32, h: u32, color: Color)
        requires
            old(self).wf(),
            color.wf(),
            w <= i32::MAX,
            h <= i32::MAX,
            x + w <= i32::MAX,
            y + h <= i32::MAX,
        ensures
            final(self).wf(),
            final(self)@.width == old(self)@.width,
            final(self)@.height == old(self)@.height,
            final(self)@.pixels == solid_pixels(old(self)@, x, y, w, h, color),
    {
        let ghost f = self@;
        let ghost wd = self.width as int;
        let x0: i64 = if x < 0 { 0 } else { x as i64 };
        let y0: i64 = if y < 0 { 0 } else { y as i64 };
        let x1: i64 = if x as i64 + w as i64 > self.width as i64 {
            self.width as i64
        } else {
            x as i64 + w as i64
        };
        let y1: i64 = if y as i64 + h as i64 > self.height as i64 {
            self.height as i64
        } else {
            y as i64 + h as i64
        };
        let mut yy: i64 = y0;
        while yy < y1
            invariant
                0 <= y0 <= yy,
                yy <= y1 || yy == y0,
                0 <= x0,
                y1 <= self.height,
                x1 <= self.width,
                self.width == f.width,
                self.height == f.height,
                self.buf@.len() == f.pixels.len(),
                f.pixels.len() == self.width * self.height,
                self.width * self.height <= u32::MAX,
                self.width <= i32::MAX,
                self.height <= i32::MAX,
                wd == self.width,
                color.wf(),
                forall|i: int| 0 <= i < f.pixels.len() ==> (#[trigger] f.pixels[i]).wf(),
                forall|k: int|
                    0 <= k < f.pixels.len() ==> #[trigger] self.buf@[k] == if y0 <= k / wd < yy
                        && x0 <= k % wd < x1 {
                        color
                    } else {
                        f.pixels[k]
                    },
            decreases y1 - yy,
        {
            let mut xx: i64 = x0;
            while xx < x1
                invariant
                    0 <= y0 <= yy < y1,
                    0 <= x0 <= xx,
                    xx <= x1 || xx == x0,
                    y1 <= self.height,
                    x1 <= self.width,
                    self.width == f.width,
                    self.height == f.height,
                    self.buf@.len() == f.pixels.len(),
                    f.pixels.len() == self.width * self.height,
                    self.width * self.height <= u32::MAX,
                    self.width <= i32::MAX,
                    self.height <= i32::MAX,
                    wd == self.width,
                    color.wf(),
                    forall|i: int| 0 <= i < f.pixels.len() ==> (#[trigger] f.pixels[i]).wf(),
                    forall|k: int|
                        0 <= k < f.pixels.len() ==> #[trigger] self.buf@[k] == if (y0 <= k / wd
                            < yy && x0 <= k % wd < x1) || (k / wd == yy && x0 <= k % wd < xx) {
                            color
                        } else {
                            f.pixels[k]
                        },
                decreases x1 - xx,
            {
                let ghost idx = yy * wd + xx;
                assert(0 <= idx < wd * self.height) by (nonlinear_arith)
                    requires
                        idx == yy * wd + xx,
                        0 <= yy < self.height,
                        0 <= xx < wd,
                ;
                proof {
                    vstd::arithmetic::div_mod::lemma_fundamental_div_mod_converse(
                        idx,
                        wd,
                        yy as int,
                        xx as int,
                    );
                }
                let i = (yy as u64 * self.width as u64 + xx as u64) as usize;
                self.buf.set(i, color);
                assert forall|k: int| 0 <= k < f.pixels.len() implies #[trigger] self.buf@[k]
                    == if (y0 <= k / wd < yy && x0 <= k % wd < x1) || (k / wd == yy && x0 <= k
                    % wd < xx + 1) {
                    color
                } else {
                    f.pixels[k]
                } by {
                    if k != idx {
                        lemma_cell_of_index(k, wd, self.height as int);
                        if k / wd == yy && k % wd == xx {
                            assert(k == yy * wd + xx);
                        }
                    }
                }
                xx += 1;
            }
            yy += 1;
        }
        assert forall|k: int| 0 <= k < f.pixels.len() implies #[trigger] self.buf@[k]
            == solid_pixels(f, x, y, w, h, color)[k] by {
            lemma_cell_of_index(k, wd, self.height as int);
        }
        assert(self.buf@ =~= solid_pixels(f, x, y, w, h, color));
        proof {
            assert forall|i: int| 0 <= i < self.buf@.len() implies (#[trigger] self.buf@[i]).wf() by {
                assert(f.pixels[i].wf());
            }
        }
    }

    /// Write `colors` row by row into the area at `x`, `y` that is `width`
    /// pixels wide (see [`contiguous_pixels`]); positions outside the frame
    /// are skipped.
    pub fn fill_contiguous(&mut self, x: i32, y: i32, width: u32, colors: &[Color])
        requires
            old(self).wf(),
            forall|i: int| 0 <= i < colors@.len() ==> (#[trigger] colors@[i]).wf(),
            width <= i32::MAX,
            colors@.len() <= i32::MAX,
            contiguous_fits(x, y, width, colors@.len()),
        ensures
            final(self).wf(),
            final(self)@.width == old(self)@.width,
            final(self)@.height == old(self)@.height,
            final(self)@.pixels == contiguous_pixels(old(self)@, x, y, width, colors@),
    {
        let ghost f = self@;
        let ghost fw = self.width as int;
        let ghost fh = self.height as int;
        let x0: u64 = if x < 0 { 0 } else { x as u64 };
        let y0: u64 = if y < 0 { 0 } else { y as u64 };
        let wd: u64 = if width == 0 { 1 } else { width as u64 };
        let n = colors.len();
        let mut i: usize = 0;
        while i < n
            invariant
                i <= n,
                n == colors@.len(),
                n <= i32::MAX,
                x0 == clamp0(x),
                y0 == clamp0(y),
                wd == run_width(width),
                wd <= i32::MAX,
                contiguous_fits(x, y, width, colors@.len()),
                self.width == f.width,
                self.height == f.height,
                fw == self.width,
                fh == self.height,
                self.buf@.len() == f.pixels.len(),
                f.pixels.len() == self.width * self.height,
                self.width * self.height <= u32::MAX,
                self.width <= i32::MAX,
                self.height <= i32::MAX,
                forall|j: int| 0 <= j < colors@.len() ==> (#[trigger] colors@[j]).wf(),
                forall|j: int| 0 <= j < f.pixels.len() ==> (#[trigger] f.pixels[j]).wf(),
                forall|k: int|
                    0 <= k < f.pixels.len() ==> #[trigger] self.buf@[k] == {
                        let dx = k % fw - x0;
                        let dy = k / fw - y0;
                        if 0 <= dx < wd && 0 <= dy && dy * wd + dx < i {
                            colors@[dy * wd + dx]
                        } else {
                            f.pixels[k]
                        }
                    },
            decreases n - i,
        {
            let ghost ii = i as int;
            proof {
                vstd::arithmetic::div_mod::lemma_fundamental_div_mod(ii, wd as int);
                vstd::arithmetic::div_mod::lemma_mod_pos_bound(ii, wd as int);
                vstd::arithmetic::div_mod::lemma_div_pos_is_pos(ii, wd as int);
                assert(ii / (wd as int) <= (n as int - 1) / (wd as int)) by {
                    vstd::arithmetic::div_mod::lemma_div_is_ordered(ii, n as int - 1, wd as int);
                }
                assert(ii / (wd as int) <= ii) by {
                    vstd::arithmetic::div_mod::lemma_div_is_ordered_by_denominator(ii, 1, wd as int);
                }
            }
            let px: u64 = x0 + (i as u64) % wd;
            let py: u64 = y0 + (i as u64) / wd;
            let c = colors[i];
            if px < self.width as u64 && py < self.height as u64 {
                let ghost idx = py * fw + px;
                assert(0 <= idx < fw * fh) by (nonlinear_arith)
                    requires
                        idx == py * fw + px,
                        0 <= py < fh,
                        0 <= px < fw,
                ;
                proof {
                    vstd::arithmetic::div_mod::lemma_fundamental_div_mod_converse(
                        idx,
                        fw,
                        py as int,
                        px as int,
                    );
                }
                let at = (py * self.width as u64 + px) as usize;
                self.buf.set(at, c);
                assert forall|k: int| 0 <= k < f.pixels.len() implies #[trigger] self.buf@[k]
                    == {
                    let dx = k % fw - x0;
                    let dy = k / fw - y0;
                    if 0 <= dx < wd && 0 <= dy && dy * wd + dx < i + 1 {
                        colors@[dy * wd + dx]
                    } else {
                        f.pixels[k]
                    }
                } by {
                    lemma_cell_of_index(k, fw, fh);
                    let dx = k % fw - x0;
                    let dy = k / fw - y0;
                    if 0 <= dx < wd && 0 <= dy && dy * wd + dx == ii {
                        vstd::arithmetic::div_mod::lemma_fundamental_div_mod_converse(
                            ii,
                            wd as int,
                            dy,
                            dx,
                        );
                        assert(k == (k / fw) * fw + k % fw);
                    }
                    if k == idx {
                        assert((ii / (wd as int)) * (wd as int) + ii % (wd as int) == ii) by (
                        nonlinear_arith)
                            requires
                                ii == (wd as int) * (ii / (wd as int)) + ii % (wd as int),
                        ;
                    }
                }
            } else {
                assert forall|k: int| 0 <= k < f.pixels.len() implies #[trigger] self.buf@[k]
                    == {
                    let dx = k % fw - x0;
                    let dy = k / fw - y0;
                    if 0 <= dx < wd && 0 <= dy && dy * wd + dx < i + 1 {
                        colors@[dy * wd + dx]
                    } else {
                        f.pixels[k]
                    }
                } by {
                    lemma_cell_of_index(k, fw, fh);
                    let dx = k % fw - x0;
                    let dy = k / fw - y0;
                    if 0 <= dx < wd && 0 <= dy && dy * wd + dx == ii {
                        vstd::arithmetic::div_mod::lemma_fundamental_div_mod_converse(
                            ii,
                            wd as int,
                            dy,
                            dx,
                        );
                    }
                }
            }
            i += 1;
        }
        assert(self.buf@ =~= contiguous_pixels(f, x, y, width, colors@));
        proof {
            assert forall|j: int| 0 <= j < self.buf@.len() implies (#[trigger] self.buf@[j]).wf() by {
                assert(f.pixels[j].wf());
                lemma_cell_of_index(j, fw, fh);
                let dx = j % fw - x0;
                let dy = j / fw - y0;
                if 0 <= dx < wd && 0 <= dy && dy * wd + dx < n {
                    assert(0 <= dy * wd + dx) by (nonlinear_arith)
                        requires
                            0 <= dx,
                            0 <= dy,
                            0 < wd,
                    ;
                    assert(colors@[dy * wd + dx].wf());
                }
            }
        }
    }

    /// Whether the frame's pixels are exactly `other`.
    pub fn same_pixels(&self, other: &Vec<Color>) -> (r: bool)
        ensures
            r == (self@.pixels == other@),
    {
        if self.buf.len() != other.len() {
            return false;
        }
        let mut i: usize = 0;
        while i < self.buf.len()
            invariant
                i <= self.buf@.len(),
                self.buf@.len() == other@.len(),
                forall|k: int| 0 <= k < i ==> self.buf@[k] == other@[k],
            decreases self.buf@.len() - i,
        {
            if self.buf[i] != other[i] {
                assert(self.buf@[i as int] != other@[i as int]);
                return false;
            }
            i += 1;
        }
        assert(self.buf@ =~= other@);
        true
    }

    /// A copy of the frame's pixels, row by row.
    pub fn to_pixels(&self) -> (r: Vec<Color>)
        ensures
            r@ == self@.pixels,
    {
        let mut out: Vec<Color> = Vec::new();
        let mut i: usize = 0;
        while i < self.buf.len()
            invariant
                i <= self.buf@.len(),
                out@ == self.buf@.subrange(0, i as int),
            decreases self.buf@.len() - i,
        {
            out.push(self.buf[i]);
            i += 1;
            assert(out@ =~= self.buf@.subrange(0, i as int));
        }
        assert(self.buf@.subrange(0, self.buf@.len() as int) =~= self.buf@);
        out
    }

    /// The pixel at `x`, `y`.
    pub fn pixel(&self, x: u32, y: u32) -> (c: Color)
        requires
            self.wf(),
            x < self@.width,
            y < self@.height,
        ensures
            c == self@.pixels[y * self@.width + x],
            c.wf(),
    {
        assert((y as int) * (self.width as int) + (x as int) < (self.width as int) * (
        self.height as int)) by (nonlinear_arith)
            requires
                x < self.width,
                y < self.height,
        ;
        let c = self.buf[(y * self.width + x) as usize];
        assert(self.buf@[(y * self.width + x) as int].wf());
        c
    }

    /// Render the frame as one ANSI cell per font cell, written at absolute
    /// row and column positions and clipped to a terminal of `term_rows` ×
    /// `term_cols`, so that it never scrolls (see [`frame_text`]).
    pub fn render_cells(&self, term_rows: u16, term_cols: u16, glyphs: &[Glyph]) -> (r: String)
        requires
            self.wf(),
            term_rows > 0 ==> self@.width >= 6 && self@.height >= 10,
        ensures
            r@ == frame_text(self@, term_rows, term_cols, glyphs@),
    {
        let cols0 = if self.width / 6 < 1 {
            1
        } else {
            self.width / 6
        };
        let rows0 = if self.height / 10 < 1 {
            1
        } else {
            self.height / 10
        };
        let rows = if rows0 < term_rows as u32 {
            rows0
        } else {
            term_rows as u32
        };
        let term = if term_cols < 1 {
            1
        } else {
            term_cols as u32
        };
        let cols = if cols0 < term {
            cols0
        } else {
            term
        };
        let mut out: Vec<char> = Vec::new();
        append_str(&mut out, "\x1b[?25l");
        let ghost start = out@;
        let mut cy: u32 = 0;
        while cy < rows
            invariant
                cy <= rows,
                self.wf(),
                rows as nat == frame_rows(self@, term_rows),
                cols as nat == frame_cols(self@, term_cols),
                term_rows > 0 ==> self@.width >= 6 && self@.height >= 10,
                out@ == start + rows_text(self@, cols as nat, glyphs@, cy as nat),
            decreases rows - cy,
        {
            // Move to the absolute start of this row (1-based).
            append_str(&mut out, "\x1b[");
            let line = decimal_chars((cy + 1) as u64);
            append_chars(&mut out, &line);
            append_str(&mut out, ";1H");
            let ghost row_start = out@;
            let mut cx: u32 = 0;
            while cx < cols
                invariant
                    cx <= cols,
                    cy < rows,
                    self.wf(),
                    rows as nat == frame_rows(self@, term_rows),
                    cols as nat == frame_cols(self@, term_cols),
                    term_rows > 0 ==> self@.width >= 6 && self@.height >= 10,
                    out@ == row_start + row_cells_text(self@, cy, glyphs@, cx as nat),
                decreases cols - cx,
            {
                assert(cell_inside(self@, cx, cy)) by (nonlinear_arith)
                    requires
                        cx < cols,
                        cy < rows,
                        cols <= self@.width / 6,
                        rows <= self@.height / 10,
                ;
                let (ch, color) = self.render_cell(cx, cy, glyphs);
                append_str(&mut out, "\x1b[38;5;");
                let code = decimal_chars(color as u64);
                append_chars(&mut out, &code);
                append_str(&mut out, "m");
                out.push(ch);
                assert(out@ =~= row_start + row_cells_text(self@, cy, glyphs@, (cx + 1) as nat));
                cx += 1;
            }
            append_str(&mut out, "\x1b[0m");
            assert(out@ =~= start + rows_text(self@, cols as nat, glyphs@, (cy + 1) as nat));
            cy += 1;
        }
        string_of(&out)
    }

    /// The colour of pixel `i` of cell (`cx`, `cy`).
    fn cell_pixel(&self, cx: u32, cy: u32, i: usize) -> (c: Color)
        requires
            self.wf(),
            cell_inside(self@, cx, cy),
            i < 60,
        ensures
            c == cell_pixels(self@, cx, cy)[i as int],
            c.wf(),
    {
        let x = cx * 6 + (i % 6) as u32;
        let y = cy * 10 + (i / 6) as u32;
        self.pixel(x, y)
    }

    /// Reconstruct one 6×10 cell as a character plus its ANSI colour (see
    /// [`cell_of`]).
    pub fn render_cell(&self, cx: u32, cy: u32, glyphs: &[Glyph]) -> (r: (char, u8))
        requires
            self.wf(),
            cell_inside(self@, cx, cy),
        ensures
            r == cell_of(cell_pixels(self@, cx, cy), glyphs@),
    {
        let ghost cs = cell_pixels(self@, cx, cy);
        let mut sum: u32 = 0;
        let mut i: usize = 0;
        while i < CELL_PIXELS
            invariant
                i <= 60,
                self.wf(),
                cell_inside(self@, cx, cy),
                cs == cell_pixels(self@, cx, cy),
                sum == lum_sum(cs, i as nat),
                lum_sum(cs, i as nat) <= 255 * i,
            decreases 60 - i,
        {
            let c = self.cell_pixel(cx, cy, i);
            sum = sum + lum8(c) as u32;
            i += 1;
        }
        let avg = (sum / CELL_PIXELS as u32) as u8;

        // Ink is anything brighter than the cell average. Accumulate average
        // colours of the ink (foreground) and background classes.
        let mut s = CellSums { bits: 0, ir: 0, ig: 0, ib: 0, inn: 0, br: 0, bg: 0, bb: 0, bn: 0 };
        let mut i: usize = 0;
        while i < CELL_PIXELS
            invariant
                i <= 60,
                self.wf(),
                cell_inside(self@, cx, cy),
                cs == cell_pixels(self@, cx, cy),
                s == cell_sums(cs, avg, i as nat),
                s.ir <= 255 * i && s.ig <= 255 * i && s.ib <= 255 * i && s.inn <= i,
                s.br <= 255 * i && s.bg <= 255 * i && s.bb <= 255 * i && s.bn <= i,
            decreases 60 - i,
        {
            let c = self.cell_pixel(cx, cy, i);
            let r = c.r as u32 * 255 / 31;
            let g = c.g as u32 * 255 / 63;
            let b = c.b as u32 * 255 / 31;
            if lum8(c) > avg {
                s.bits = s.bits | (1u64 << i as u64);
                s.ir = s.ir + r;
                s.ig = s.ig + g;
                s.ib = s.ib + b;
                s.inn = s.inn + 1;
            } else {
                s.br = s.br + r;
                s.bg = s.bg + g;
                s.bb = s.bb + b;
                s.bn = s.bn + 1;
            }
            i += 1;
        }

        // Solid (single colour) cells: blank space / filled block.
        if s.inn == 0 {
            return (' ', avg_ansi(s.br, s.bg, s.bb, s.bn));
        }
        // Exact glyph match (normal text).
        match find_glyph(glyphs, s.bits) {
            Some(k) => {
                return (glyphs[k].ch, avg_ansi(s.ir, s.ig, s.ib, s.inn));
            },
            None => {},
        }
        // Inverted glyph (e.g. light text on a dark highlight).
        let inv = !s.bits & CELL_MASK;
        match find_glyph(glyphs, inv) {
            Some(k) => {
                return (glyphs[k].ch, avg_ansi(s.br, s.bg, s.bb, s.bn));
            },
            None => {},
        }
        // Fallback: luminance-mapped block character.
        let ramp_chars: [char; 10] = [' ', '.', ':', '-', '=', '+', '*', '#', '%', '@'];
        let idx = (avg as usize * 10) / 256;
        assert(ramp_chars@ == ramp());
        (ramp_chars[idx], avg_ansi(s.br, s.bg, s.bb, s.bn))
    }
}

/// Index of the first glyph whose pattern is `bits`.
fn find_glyph(glyphs: &[Glyph], bits: u64) -> (r: Option<usize>)
    ensures
        match r {
            Some(k) => k < glyphs@.len() && first_glyph(glyphs@, bits, glyphs@.len() as int) == Some(
                k as int,
            ),
            None => first_glyph(glyphs@, bits, glyphs@.len() as int) is None,
        },
{
    let mut i: usize = 0;
    while i < glyphs.len()
        invariant
            i <= glyphs@.len(),
            first_glyph(glyphs@, bits, i as int) is None,
        decreases glyphs@.len() - i,
    {
        if glyphs[i].bits == bits {
            assert(first_glyph(glyphs@, bits, (i + 1) as int) == Some(i as int));
            proof {
                lemma_first_glyph_stays(glyphs@, bits, (i + 1) as int, glyphs@.len() as int);
            }
            return Some(i);
        }
        i += 1;
    }
    None
}

/// Once found among the first `n`, the first matching glyph stays the first
/// among more.
proof fn lemma_first_glyph_stays(glyphs: Seq<Glyph>, bits: u64, n: int, m: int)
    requires
        0 <= n <= m,
        first_glyph(glyphs, bits, n) is Some,
    ensures
        first_glyph(glyphs, bits, m) == first_glyph(glyphs, bits, n),
    decreases m - n,
{
    if m > n {
        lemma_first_glyph_stays(glyphs, bits, n, m - 1);
    }
}

/// Whether pixel `i` of a cell pattern is ink.
pub open spec fn ink_bit(bits: u64, i: u64) -> bool {
    (bits >> i) & 1u64 == 1u64
}

/// The cell that draws pattern `bits`: ink pixels in `fg`, the others in
/// `bg`.
pub open spec fn pattern_cell(bits: u64, fg: Color, bg: Color) -> Seq<Color> {
    Seq::new(60, |i: int| if ink_bit(bits, i as u64) { fg } else { bg })
}

/// The low `k` bits of a pattern.
pub open spec fn low_bits(bits: u64, k: u64) -> u64 {
    bits & (((1u64 << k) - 1u64) as u64)
}

/// Adding bit `k` to the low `k` bits gives the low `k + 1` bits.
proof fn lemma_low_bits_step(p: u64, k: u64)
    requires
        k < 60,
    ensures
        ink_bit(p, k) ==> low_bits(p, (k + 1) as u64) == low_bits(p, k) | (1u64 << k),
        !ink_bit(p, k) ==> low_bits(p, (k + 1) as u64) == low_bits(p, k),
{
    assert((p >> k) & 1u64 == 1u64 ==> p & (((1u64 << ((k + 1) as u64)) - 1u64) as u64) == (p & (((
    1u64 << k) - 1u64) as u64)) | (1u64 << k)) by (bit_vector)
        requires
            k < 60,
    ;
    assert((p >> k) & 1u64 != 1u64 ==> p & (((1u64 << ((k + 1) as u64)) - 1u64) as u64) == p & (((
    1u64 << k) - 1u64) as u64)) by (bit_vector)
        requires
            k < 60,
    ;
}

/// The patterns of whole cells, and what their pixels are.
proof fn lemma_cell_masks(p: u64, j: u64)
    requires
        j < 60,
    ensures
        low_bits(0, 0) == 0,
        low_bits(p, 0) == 0,
        p <= CELL_MASK ==> low_bits(p, 60) == p,
        ink_bit(CELL_MASK, j),
        !ink_bit(0, j),
{
    assert(0u64 & (((1u64 << 0u64) - 1u64) as u64) == 0u64) by (bit_vector);
    assert(p & (((1u64 << 0u64) - 1u64) as u64) == 0u64) by (bit_vector);
    assert(p <= 0x0fff_ffff_ffff_ffffu64 ==> p & (((1u64 << 60u64) - 1u64) as u64) == p) by (bit_vector);
    assert(j < 60 ==> (0x0fff_ffff_ffff_ffffu64 >> j) & 1u64 == 1u64) by (bit_vector);
    assert((0u64 >> j) & 1u64 == 0u64) by (bit_vector);
}

/// Patterns with the same first `k` pixels have the same low `k` bits.
proof fn lemma_low_bits_agree(p: u64, q: u64, k: u64)
    requires
        k <= 60,
        forall|j: u64| j < k ==> ink_bit(p, j) == ink_bit(q, j),
    ensures
        low_bits(p, k) == low_bits(q, k),
    decreases k,
{
    if k == 0 {
        lemma_cell_masks(p, 0);
        lemma_cell_masks(q, 0);
    } else {
        let k1 = (k - 1) as u64;
        lemma_low_bits_agree(p, q, k1);
        lemma_low_bits_step(p, k1);
        lemma_low_bits_step(q, k1);
    }
}

/// A pattern of a cell that is neither blank nor full has an ink pixel and
/// a background pixel.
proof fn lemma_mixed_pattern(p: u64)
    requires
        p <= CELL_MASK,
        p != 0,
        p != CELL_MASK,
    ensures
        exists|j: u64| j < 60 && ink_bit(p, j),
        exists|j: u64| j < 60 && !ink_bit(p, j),
{
    lemma_cell_masks(p, 0);
    lemma_cell_masks(CELL_MASK, 0);
    lemma_cell_masks(0, 0);
    if forall|j: u64| j < 60 ==> !ink_bit(p, j) {
        assert forall|j: u64| j < 60 implies ink_bit(p, j) == ink_bit(0, j) by {
            lemma_cell_masks(p, j);
        }
        lemma_low_bits_agree(p, 0, 60);
    }
    if forall|j: u64| j < 60 ==> ink_bit(p, j) {
        assert forall|j: u64| j < 60 implies ink_bit(p, j) == ink_bit(CELL_MASK, j) by {
            lemma_cell_masks(p, j);
        }
        lemma_low_bits_agree(p, CELL_MASK, 60);
    }
}

/// The luminance sum of a two-colour cell lies between all background and
/// all ink, and a background pixel keeps it below all ink.
proof fn lemma_lum_sum_bounds(cs: Seq<Color>, fg: Color, bg: Color, k: nat, j: int)
    requires
        k <= cs.len(),
        lum(bg) < lum(fg),
        forall|i: int| 0 <= i < cs.len() ==> cs[i] == fg || cs[i] == bg,
    ensures
        lum(bg) * k <= lum_sum(cs, k) <= lum(fg) * k,
        0 <= j < k && cs[j] == bg ==> lum_sum(cs, k) + lum(fg) - lum(bg) <= lum(fg) * k,
    decreases k,
{
    if k > 0 {
        let k1 = (k - 1) as nat;
        lemma_lum_sum_bounds(cs, fg, bg, k1, j);
        let lf = lum(fg) as int;
        let lb = lum(bg) as int;
        let l = lum(cs[k1 as int]) as int;
        assert(lum_sum(cs, k) == lum_sum(cs, k1) + l);
        assert(l == lf || l == lb);
        assert(lb * k == lb * k1 + lb && lf * k == lf * k1 + lf) by (nonlinear_arith)
            requires
                k == k1 + 1,
        ;
    }
}

/// The ink pattern of a cell is the pattern whose bits are its pixels
/// brighter than `avg`.
proof fn lemma_cell_bits(cs: Seq<Color>, avg: u8, p: u64, k: nat)
    requires
        k <= 60,
        cs.len() == 60,
        forall|i: int| 0 <= i < 60 ==> (lum(cs[i]) > avg) == ink_bit(p, i as u64),
    ensures
        cell_sums(cs, avg, k).bits == low_bits(p, k as u64),
        cell_sums(cs, avg, k).inn <= k,
        (exists|j: u64| j < k && ink_bit(p, j)) ==> cell_sums(cs, avg, k).inn > 0,
    decreases k,
{
    if k == 0 {
        lemma_cell_masks(p, 0);
    } else {
        let k1 = (k - 1) as nat;
        lemma_cell_bits(cs, avg, p, k1);
        lemma_low_bits_step(p, k1 as u64);
        assert((lum(cs[k1 as int]) > avg) == ink_bit(p, k1 as u64));
        if exists|j: u64| j < k && ink_bit(p, j) {
            let j = choose|j: u64| j < k && ink_bit(p, j);
            if j < k1 {
                assert(exists|j: u64| j < k1 && ink_bit(p, j));
            }
        }
    }
}

/// A cell drawn with a glyph's pattern, ink brighter than the background,
/// reads back as that glyph's character: the first glyph with the pattern,
/// when the pattern has both ink and background pixels.
pub proof fn lemma_glyph_reads_back(bits: u64, fg: Color, bg: Color, glyphs: Seq<Glyph>)
    requires
        bits <= CELL_MASK,
        bits != 0,
        bits != CELL_MASK,
        fg.wf(),
        bg.wf(),
        lum(bg) < lum(fg),
        first_glyph(glyphs, bits, glyphs.len() as int) is Some,
    ensures
        cell_of(pattern_cell(bits, fg, bg), glyphs).0 == glyphs[first_glyph(
            glyphs,
            bits,
            glyphs.len() as int,
        )->Some_0].ch,
{
    let cs = pattern_cell(bits, fg, bg);
    lemma_mixed_pattern(bits);
    let j = choose|j: u64| j < 60 && !ink_bit(bits, j);
    assert(cs[j as int] == bg);
    lemma_lum_sum_bounds(cs, fg, bg, 60, j as int);
    let sum = lum_sum(cs, 60);
    let avg = (sum / 60) as u8;
    assert(lum(bg) <= sum / 60 < lum(fg));
    assert forall|i: int| 0 <= i < 60 implies (lum(cs[i]) > avg) == ink_bit(bits, i as u64) by {
        if ink_bit(bits, i as u64) {
            assert(cs[i] == fg);
        } else {
            assert(cs[i] == bg);
        }
    }
    lemma_cell_bits(cs, avg, bits, 60);
    lemma_cell_masks(bits, 0);
}

} // verus!
