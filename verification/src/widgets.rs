//! Text layout for the screens: word wrapping, truncation with a marker,
//! and how many characters or lines fit in a pixel extent.

use vstd::prelude::*;

use crate::context::NetworkState;
use crate::scene::{DrawOp, Op, ops_view, push_op};
use crate::text::{trim_end, chars_of, string_of, trim_end_chars, slice_chars, append_chars};
use crate::theme::{Color, Theme, CHAR_W, LINE_H};

verus! {

/// The pieces of `s` between occurrences of `c` (`str::split`): one more
/// piece than there are separators.
pub open spec fn split_on(s: Seq<char>, c: char) -> Seq<Seq<char>>
    decreases s.len(),
{
    if s.len() == 0 {
        seq![Seq::empty()]
    } else {
        let p = split_on(s.drop_last(), c);
        if s.last() == c {
            p.push(Seq::empty())
        } else {
            p.update(p.len() - 1, p.last().push(s.last()))
        }
    }
}

/// Wrapping state after the first `k` words: the finished lines and the
/// line being filled. A word joins the current line when it fits with a
/// separating space; a word longer than the width gets a line of its own.
pub open spec fn wrap_state(words: Seq<Seq<char>>, max: nat, k: nat) -> (Seq<Seq<char>>, Seq<char>)
    decreases k,
{
    if k == 0 {
        (Seq::empty(), Seq::empty())
    } else {
        let (out, cur) = wrap_state(words, max, (k - 1) as nat);
        let w = words[k - 1];
        if cur.len() == 0 {
            (out, w)
        } else if w.len() <= max && cur.len() < max - w.len() {
            (out, cur.push(' ') + w)
        } else {
            (out.push(cur), w)
        }
    }
}

/// The wrapped lines of one text line (trailing white space dropped): an
/// empty line stays one empty line, and a width of zero wraps nothing.
pub open spec fn wrap_line(line: Seq<char>, max: nat) -> Seq<Seq<char>> {
    let t = trim_end(line);
    if t.len() == 0 {
        seq![Seq::empty()]
    } else if max == 0 {
        seq![t]
    } else {
        let words = split_on(t, ' ');
        let (out, cur) = wrap_state(words, max, words.len());
        if cur.len() > 0 {
            out.push(cur)
        } else {
            out
        }
    }
}

/// The wrapped lines of the first `k` text lines of `lines`.
pub open spec fn wrap_lines(lines: Seq<Seq<char>>, max: nat, k: nat) -> Seq<Seq<char>>
    decreases k,
{
    if k == 0 {
        Seq::empty()
    } else {
        wrap_lines(lines, max, (k - 1) as nat) + wrap_line(lines[k - 1], max)
    }
}

/// Word-wrapped lines of `text` for lines of `max` characters, each text
/// line wrapped on its own.
pub open spec fn wrap_spec(text: Seq<char>, max: nat) -> Seq<Seq<char>> {
    let lines = split_on(text, '\n');
    wrap_lines(lines, max, lines.len())
}

/// `text` cut to `max` characters, the last one replaced by `~` when cut;
/// nothing is left when `max` is 0.
pub open spec fn truncated(text: Seq<char>, max: nat) -> Seq<char> {
    if text.len() <= max {
        text
    } else if max == 0 {
        Seq::empty()
    } else {
        text.take(max - 1).push('~')
    }
}

/// The strings of `v`, taken by their characters.
pub open spec fn strings_view(v: Seq<String>) -> Seq<Seq<char>> {
    v.map_values(|s: String| s@)
}

/// The pieces of `v` split at `c`.
fn split_chars(v: &Vec<char>, c: char) -> (r: Vec<Vec<char>>)
    ensures
        r@.map_values(|p: Vec<char>| p@) == split_on(v@, c),
{
    let mut r: Vec<Vec<char>> = Vec::new();
    let mut cur: Vec<char> = Vec::new();
    let mut i: usize = 0;
    while i < v.len()
        invariant
            i <= v.len(),
            r@.map_values(|p: Vec<char>| p@).push(cur@) == split_on(v@.take(i as int), c),
        decreases v.len() - i,
    {
        let ghost before = v@.take(i as int);
        assert(v@.take(i + 1).drop_last() =~= before);
        if v[i] == c {
            let done = cur;
            cur = Vec::new();
            let ghost rv = r@;
            r.push(done);
            assert(r@.map_values(|p: Vec<char>| p@) =~= rv.map_values(|p: Vec<char>| p@).push(
                done@,
            ));
        } else {
            cur.push(v[i]);
            let ghost p = split_on(before, c);
            assert(r@.map_values(|p: Vec<char>| p@).push(cur@) =~= p.update(
                p.len() - 1,
                p.last().push(v@[i as int]),
            ));
        }
        i += 1;
    }
    assert(v@.take(v.len() as int) =~= v@);
    let ghost rv = r@;
    r.push(cur);
    assert(r@.map_values(|p: Vec<char>| p@) =~= rv.map_values(|p: Vec<char>| p@).push(cur@));
    r
}

/// Wrap one text line (see [`wrap_line`]), appending its lines to `out`.
fn wrap_one(line: &Vec<char>, max: usize, out: &mut Vec<String>)
    ensures
        strings_view(final(out)@) == strings_view(old(out)@) + wrap_line(line@, max as nat),
{
    let t = trim_end_chars(line);
    if t.len() == 0 {
        let ghost o = out@;
        out.push(String::new());
        assert(strings_view(out@) =~= strings_view(o) + wrap_line(line@, max as nat));
        return ;
    }
    if max == 0 {
        let ghost o = out@;
        out.push(string_of(&t));
        assert(strings_view(out@) =~= strings_view(o) + wrap_line(line@, max as nat));
        return ;
    }
    let words = split_chars(&t, ' ');
    let ghost ws = words@.map_values(|p: Vec<char>| p@);
    let ghost start = out@;
    let mut cur: Vec<char> = Vec::new();
    let mut k: usize = 0;
    while k < words.len()
        invariant
            k <= words@.len(),
            ws == words@.map_values(|p: Vec<char>| p@),
            ws == split_on(t@, ' '),
            ({
                let (o, c) = wrap_state(ws, max as nat, k as nat);
                strings_view(out@) == strings_view(start) + o && cur@ == c
            }),
        decreases words@.len() - k,
    {
        let w = &words[k];
        assert(w@ == ws[k as int]);
        if cur.len() == 0 {
            cur = slice_chars(w, 0, w.len());
            assert(w@.subrange(0, w@.len() as int) =~= w@);
        } else if w.len() <= max && cur.len() < max - w.len() {
            cur.push(' ');
            append_chars(&mut cur, w);
        } else {
            let ghost o = out@;
            out.push(string_of(&cur));
            assert(strings_view(out@) =~= strings_view(o).push(cur@));
            cur = slice_chars(w, 0, w.len());
            assert(w@.subrange(0, w@.len() as int) =~= w@);
        }
        k += 1;
    }
    if cur.len() > 0 {
        let ghost o = out@;
        out.push(string_of(&cur));
        assert(strings_view(out@) =~= strings_view(o).push(cur@));
    }
}

/// Word-wrap `text` into lines of at most `max_chars` characters (a longer
/// word keeps a line of its own; each text line is wrapped separately).
pub fn wrap(text: &str, max_chars: usize) -> (r: Vec<String>)
    ensures
        strings_view(r@) == wrap_spec(text@, max_chars as nat),
{
    let v = chars_of(text);
    let lines = split_chars(&v, '\n');
    let ghost ls = lines@.map_values(|p: Vec<char>| p@);
    let mut out: Vec<String> = Vec::new();
    let mut k: usize = 0;
    while k < lines.len()
        invariant
            k <= lines@.len(),
            ls == lines@.map_values(|p: Vec<char>| p@),
            ls == split_on(text@, '\n'),
            strings_view(out@) == wrap_lines(ls, max_chars as nat, k as nat),
        decreases lines@.len() - k,
    {
        assert(lines@[k as int]@ == ls[k as int]);
        wrap_one(&lines[k], max_chars, &mut out);
        k += 1;
    }
    out
}

/// `text` cut to at most `max_chars` characters, ending in `~` when cut.
pub fn truncate(text: &str, max_chars: usize) -> (r: String)
    ensures
        r@ == truncated(text@, max_chars as nat),
{
    let v = chars_of(text);
    if v.len() <= max_chars {
        string_of(&v)
    } else if max_chars == 0 {
        String::new()
    } else {
        let keep = max_chars - 1;
        let mut s = slice_chars(&v, 0, keep);
        s.push('~');
        assert(v@.subrange(0, keep as int) =~= v@.take(keep as int));
        string_of(&s)
    }
}

/// `a / b` rounded toward zero, as Rust's integer division does.
pub open spec fn div_trunc(a: int, b: int) -> int {
    if a >= 0 {
        a / b
    } else {
        -((-a) / b)
    }
}

/// How many `unit`-sized cells fit in `extent` pixels: at least one.
pub open spec fn cells_fit(extent: i32, unit: i32) -> nat {
    let n = div_trunc(extent as int, unit as int);
    if n < 1 {
        1
    } else {
        n as nat
    }
}

/// How many characters of width `char_w` fit on a line `width_px` wide.
pub fn chars_per_line(width_px: i32, char_w: i32) -> (r: usize)
    requires
        char_w > 0,
    ensures
        r as nat == cells_fit(width_px, char_w),
{
    fit(width_px, char_w)
}

/// How many lines of height `line_h` fit in `height_px`.
pub fn lines_fit(height_px: i32, line_h: i32) -> (r: usize)
    requires
        line_h > 0,
    ensures
        r as nat == cells_fit(height_px, line_h),
{
    fit(height_px, line_h)
}

fn fit(extent: i32, unit: i32) -> (r: usize)
    requires
        unit > 0,
    ensures
        r as nat == cells_fit(extent, unit),
{
    if extent < unit {
        assert(div_trunc(extent as int, unit as int) < 1) by (nonlinear_arith)
            requires
                unit > 0,
                extent < unit,
        ;
        return 1;
    }
    let n = (extent as u32) / (unit as u32);
    assert(n as int == div_trunc(extent as int, unit as int));
    assert(n >= 1) by (nonlinear_arith)
        requires
            unit > 0,
            extent >= unit,
            n == (extent as u32) / (unit as u32),
    ;
    n as usize
}

/// Largest display extent, in pixels, the layouts handle (2^28, far beyond
/// any panel or terminal): with coordinates and sizes within it, the sums
/// and small multiples the layouts compute on them stay well inside `i32`,
/// so each layout step is free of overflow without a bound of its own.
pub const EXTENT_MAX: i32 = 0x1000_0000;

/// Whether `v` is a coordinate the layouts handle.
pub open spec fn coord_ok(v: int) -> bool {
    -EXTENT_MAX <= v <= EXTENT_MAX
}

/// A pixel extent from a signed value: negative values become zero.
pub open spec fn px(v: i32) -> u32 {
    if v < 0 {
        0
    } else {
        v as u32
    }
}

/// See [`px`].
pub fn px_of(v: i32) -> (r: u32)
    ensures
        r == px(v),
{
    if v < 0 {
        0
    } else {
        v as u32
    }
}

/// The first `n` characters of `s` (all of it when shorter).
pub open spec fn prefix(s: Seq<char>, n: nat) -> Seq<char> {
    if n < s.len() {
        s.take(n as int)
    } else {
        s
    }
}

/// The first `n` characters of `s` (`s.chars().take(n)`).
pub fn take_chars(s: &str, n: usize) -> (r: String)
    ensures
        r@ == prefix(s@, n as nat),
{
    let v = chars_of(s);
    if n < v.len() {
        let p = slice_chars(&v, 0, n);
        assert(v@.subrange(0, n as int) =~= v@.take(n as int));
        string_of(&p)
    } else {
        string_of(&v)
    }
}

/// A filled rectangle.
pub open spec fn fill_op(x: i32, y: i32, w: u32, h: u32, color: Color) -> Op {
    Op::Fill { x, y, w, h, color }
}

/// A line of text.
pub open spec fn text_op(x: i32, y: i32, text: Seq<char>, color: Color) -> Op {
    Op::Text { x, y, text, color }
}

/// Fill a rectangle with a solid colour.
pub fn fill_rect(ops: &mut Vec<DrawOp>, x: i32, y: i32, w: u32, h: u32, color: Color)
    ensures
        ops_view(final(ops)@) == ops_view(old(ops)@).push(fill_op(x, y, w, h, color)),
{
    push_op(ops, DrawOp::Fill { x, y, w, h, color });
}

/// Draw a single line of text with its top-left corner at `x`, `y`.
pub fn draw_text(ops: &mut Vec<DrawOp>, x: i32, y: i32, text: &str, color: Color)
    ensures
        ops_view(final(ops)@) == ops_view(old(ops)@).push(text_op(x, y, text@, color)),
{
    let t = string_of(&chars_of(text));
    push_op(ops, DrawOp::Text { x, y, text: t, color });
}

/// An inverse (highlighted) line: a filled background one line tall, a
/// leading cursor marker, and the text after it, cut to what fits.
pub open spec fn highlight_ops(
    x: i32,
    y: i32,
    text: Seq<char>,
    width: i32,
    bg: Color,
    fg: Color,
) -> Seq<Op> {
    seq![
        fill_op(x, y, px(width), LINE_H as u32, bg),
        text_op(x, y, seq!['>'], fg),
        text_op(
            (x + CHAR_W) as i32,
            y,
            truncated(text, cells_fit((width - CHAR_W) as i32, CHAR_W)),
            fg,
        ),
    ]
}

/// Draw an inverse (highlighted) line: a filled background with a leading
/// cursor marker and text on top.
pub fn draw_highlight(
    ops: &mut Vec<DrawOp>,
    x: i32,
    y: i32,
    text: &str,
    width: i32,
    bg: Color,
    fg: Color,
    theme: &Theme,
)
    requires
        theme.wf(),
        coord_ok(x as int),
        coord_ok(width as int),
    ensures
        ops_view(final(ops)@) == ops_view(old(ops)@) + highlight_ops(x, y, text@, width, bg, fg),
{
    let ghost start = ops_view(ops@);
    fill_rect(ops, x, y, px_of(width), px_of(theme.line_h), bg);
    draw_text(ops, x, y, ">", fg);
    let max_chars = theme.chars_per_line(width - theme.char_w);
    let t = truncate(text, max_chars);
    draw_text(ops, x + theme.char_w, y, t.as_str(), fg);
    proof {
        reveal_strlit(">");
        assert(">"@ =~= seq!['>']);
        assert(ops_view(ops@) =~= start + highlight_ops(x, y, text@, width, bg, fg));
    }
}

/// Draw `text` at `x`, `y`, highlighted when `selected`, else in `color`.
pub open spec fn row_ops(
    x: i32,
    y: i32,
    text: Seq<char>,
    width: i32,
    selected: bool,
    color: Color,
    t: Theme,
) -> Seq<Op> {
    if selected {
        highlight_ops(x, y, text, width, t.selection, t.selection_text)
    } else {
        seq![text_op(x, y, text, color)]
    }
}

/// Draw a list row: highlighted when selected, else as plain text.
pub fn draw_row(
    ops: &mut Vec<DrawOp>,
    x: i32,
    y: i32,
    text: &str,
    width: i32,
    selected: bool,
    color: Color,
    theme: &Theme,
)
    requires
        theme.wf(),
        coord_ok(x as int),
        coord_ok(width as int),
    ensures
        ops_view(final(ops)@) == ops_view(old(ops)@) + row_ops(
            x,
            y,
            text@,
            width,
            selected,
            color,
            *theme,
        ),
{
    if selected {
        draw_highlight(ops, x, y, text, width, theme.selection, theme.selection_text, theme);
    } else {
        let ghost start = ops_view(ops@);
        draw_text(ops, x, y, text, color);
        assert(ops_view(ops@) =~= start + row_ops(x, y, text@, width, selected, color, *theme));
    }
}

/// The lines of `lines` among the first `k` that are not empty, each drawn
/// one line below the previous one from `x`, `y`.
pub open spec fn wrapped_ops(x: i32, y: i32, lines: Seq<Seq<char>>, k: nat, color: Color) -> Seq<
    Op,
>
    decreases k,
{
    if k == 0 {
        Seq::empty()
    } else {
        let before = wrapped_ops(x, y, lines, (k - 1) as nat, color);
        let line = lines[k - 1];
        if line.len() == 0 {
            before
        } else {
            before.push(text_op(x, (y + (k - 1) * LINE_H) as i32, line, color))
        }
    }
}

/// How many of the wrapped lines are drawn when at most `max_lines` are.
pub open spec fn drawn_lines(n: nat, max_lines: nat) -> nat {
    if n < max_lines {
        n
    } else {
        max_lines
    }
}

/// Draw `text` wrapped to `width_px` from `x`, `y`, at most `max_lines`
/// lines. Returns the y position below the last drawn line.
pub fn draw_wrapped(
    ops: &mut Vec<DrawOp>,
    x: i32,
    y: i32,
    text: &str,
    width_px: i32,
    max_lines: usize,
    color: Color,
    theme: &Theme,
) -> (r: i32)
    requires
        theme.wf(),
        y + drawn_lines(wrap_spec(text@, cells_fit(width_px, CHAR_W)).len(), max_lines as nat)
            * LINE_H <= i32::MAX,
    ensures
        ({
            let lines = wrap_spec(text@, cells_fit(width_px, CHAR_W));
            let n = drawn_lines(lines.len(), max_lines as nat);
            &&& ops_view(final(ops)@) == ops_view(old(ops)@) + wrapped_ops(x, y, lines, n, color)
            &&& r == y + n * LINE_H
        }),
{
    let max_chars = theme.chars_per_line(width_px);
    let lines = wrap(text, max_chars);
    let ghost ls = strings_view(lines@);
    let ghost start = ops_view(ops@);
    let n = if lines.len() < max_lines {
        lines.len()
    } else {
        max_lines
    };
    let mut i: usize = 0;
    let mut row_y: i32 = y;
    while i < n
        invariant
            n <= lines@.len(),
            i <= n,
            y + n * LINE_H <= i32::MAX,
            ls == strings_view(lines@),
            row_y == y + i * LINE_H,
            theme.wf(),
            ops_view(ops@) == start + wrapped_ops(x, y, ls, i as nat, color),
        decreases n - i,
    {
        let line = &lines[i];
        assert(line@ == ls[i as int]);
        let ghost before = ops_view(ops@);
        if line.as_str().unicode_len() != 0 {
            draw_text(ops, x, row_y, line.as_str(), color);
        }
        assert(ops_view(ops@) =~= start + wrapped_ops(x, y, ls, (i + 1) as nat, color));
        row_y = row_y + theme.line_h;
        i += 1;
    }
    row_y
}

/// The first `max_chars` characters of a right-aligned label ending two
/// pixels before `right`, on the line at `y`.
pub open spec fn right_label_op(right: int, y: i32, label: Seq<char>, max_chars: nat, color: Color) -> Op {
    let trimmed = prefix(label, max_chars);
    text_op((right - 2 - trimmed.len() * CHAR_W) as i32, y, trimmed, color)
}

/// A labelled bar: the rectangle filled with `bg`, a one-pixel underline in
/// `border` along its bottom edge, the label at its top-left corner and, if
/// given, the right label cut to the bar's width and aligned to its right
/// edge.
pub open spec fn bar_ops(
    x: i32,
    y: i32,
    w: u32,
    h: u32,
    label: Seq<char>,
    right_label: Seq<char>,
    bg: Color,
    fg: Color,
    border: Color,
) -> Seq<Op> {
    let width = w as i32;
    let base = seq![
        fill_op(x, y, w, h, bg),
        fill_op(x, (y + (h - 1)) as i32, px(width), 1, border),
        text_op(x, y, label, fg),
    ];
    if right_label.len() == 0 {
        base
    } else {
        base.push(right_label_op(x + width, y, right_label, cells_fit(width, CHAR_W), fg))
    }
}

/// Whether `label` ends inside a line of `width` pixels: a cut label
/// starts inside the line.
proof fn lemma_label_fits(width: int, n: nat)
    requires
        0 <= width,
        n <= cells_fit(width as i32, CHAR_W),
        width <= EXTENT_MAX,
    ensures
        n * CHAR_W <= width + CHAR_W,
{
    assert(n * CHAR_W <= width + CHAR_W) by (nonlinear_arith)
        requires
            n <= (if width / 6 < 1 { 1 } else { width / 6 }),
            0 <= width,
    ;
}

/// Draw a labelled bar (used for headers and footers), with a 1-px underline
/// so it reads as a distinct band.
pub fn draw_bar(
    ops: &mut Vec<DrawOp>,
    x: i32,
    y: i32,
    w: u32,
    h: u32,
    label: &str,
    right_label: &str,
    bg: Color,
    fg: Color,
    theme: &Theme,
)
    requires
        theme.wf(),
        coord_ok(x as int),
        coord_ok(y as int),
        w <= EXTENT_MAX,
        h <= EXTENT_MAX,
    ensures
        ops_view(final(ops)@) == ops_view(old(ops)@) + bar_ops(
            x,
            y,
            w,
            h,
            label@,
            right_label@,
            bg,
            fg,
            theme.border,
        ),
{
    let ghost start = ops_view(ops@);
    fill_rect(ops, x, y, w, h, bg);
    // 1-px underline separates the bar from the body below it.
    fill_rect(ops, x, y + (h as i32 - 1), px_of(w as i32), 1, theme.border);
    // Text is aligned to the 6×10 glyph grid so the terminal simulator can
    // reconstruct characters from the framebuffer.
    draw_text(ops, x, y, label, fg);
    if right_label.unicode_len() != 0 {
        let width = w as i32;
        let max_chars = theme.chars_per_line(width);
        let trimmed = take_chars(right_label, max_chars);
        let n = trimmed.as_str().unicode_len();
        proof {
            lemma_label_fits(width as int, n as nat);
        }
        let right = x + (width - 2 - (n as i32) * theme.char_w);
        draw_text(ops, right, y, trimmed.as_str(), fg);
    }
    assert(ops_view(ops@) =~= start + bar_ops(
        x,
        y,
        w,
        h,
        label@,
        right_label@,
        bg,
        fg,
        theme.border,
    ));
}

/// Signal level (one to four arcs) shown for a WiFi link with this RSSI.
pub open spec fn wifi_level(rssi: i8) -> u8 {
    if rssi >= -50 {
        4
    } else if rssi >= -60 {
        3
    } else if rssi >= -70 {
        2
    } else {
        1
    }
}

/// The RSSI shown for a WiFi link: the reported one, or -100 dBm.
pub open spec fn rssi_or_floor(r: Option<i8>) -> i8 {
    match r {
        Some(v) => v,
        None => -100i8,
    }
}

/// Left edge of the LoRa icon in a header `width` pixels wide.
pub open spec fn lora_x(width: i32) -> int {
    width - 2 - 5
}

/// Left edge of the WiFi icon, left of the LoRa icon.
pub open spec fn wifi_x(width: i32) -> int {
    lora_x(width) - 2 - 13
}

/// The top status bar: the title on the header colour with a 1-px
/// underline; the LoRa icon at the far right (green when online, red and
/// struck through otherwise); the WiFi icon left of it (its level from the
/// RSSI while the link is up); and the right label, cut to the room left of
/// the icons, right-aligned against them.
pub open spec fn header_ops(width: i32, title: Seq<char>, right_label: Seq<char>, n: NetworkState, t: Theme) -> Seq<Op> {
    let lora_online = n.lora_online == Some(true);
    let wifi_online = n.wifi_connected;
    let level: u8 = if wifi_online {
        wifi_level(rssi_or_floor(n.wifi_rssi))
    } else {
        1
    };
    let base = seq![
        fill_op(0, 0, px(width), LINE_H as u32, t.header),
        fill_op(0, (LINE_H - 1) as i32, px(width), 1, t.border),
        text_op(0, 0, title, t.header_text),
        Op::LoraIcon {
            x: lora_x(width) as i32,
            y: 1,
            online: lora_online,
            color: if lora_online { t.ok } else { t.danger },
        },
        Op::WifiIcon {
            x: wifi_x(width) as i32,
            y: 1,
            level,
            color: if wifi_online { t.ok } else { t.danger },
        },
    ];
    if right_label.len() == 0 {
        base
    } else {
        base.push(right_label_op(
            wifi_x(width),
            0,
            right_label,
            cells_fit((wifi_x(width) - 2) as i32, CHAR_W),
            t.header_text,
        ))
    }
}

/// Draw the top status bar: title, an optional right label, and the WiFi /
/// LoRa status icons at the far right.
pub fn draw_header(
    ops: &mut Vec<DrawOp>,
    width: i32,
    title: &str,
    right_label: &str,
    network: &NetworkState,
    theme: &Theme,
)
    requires
        theme.wf(),
        0 <= width <= EXTENT_MAX,
    ensures
        ops_view(final(ops)@) == ops_view(old(ops)@) + header_ops(
            width,
            title@,
            right_label@,
            *network,
            *theme,
        ),
{
    let ghost start = ops_view(ops@);
    let height = theme.line_h;
    fill_rect(ops, 0, 0, px_of(width), px_of(height), theme.header);
    // 1-px underline separates the header from the body below it.
    fill_rect(ops, 0, height - 1, px_of(width), 1, theme.border);
    draw_text(ops, 0, 0, title, theme.header_text);
    let cw = theme.char_w;

    // LoRa icon (far right): an antenna, green when online, red (struck
    // through) when offline.
    let lora_online = match network.lora_online {
        Some(true) => true,
        _ => false,
    };
    let lora_color = if lora_online {
        theme.ok
    } else {
        theme.danger
    };
    let lora_icon_w: i32 = 5;
    let lora_x = width - 2 - lora_icon_w;
    push_op(ops, DrawOp::LoraIcon { x: lora_x, y: 1, online: lora_online, color: lora_color });

    // WiFi icon (left of LoRa): a signal fan, green when online, red when
    // offline.
    let wifi_online = network.wifi_connected;
    let wifi_level: u8 = if wifi_online {
        let r = match network.wifi_rssi {
            Some(v) => v,
            None => -100,
        };
        if r >= -50 {
            4
        } else if r >= -60 {
            3
        } else if r >= -70 {
            2
        } else {
            1
        }
    } else {
        1
    };
    let wifi_color = if wifi_online {
        theme.ok
    } else {
        theme.danger
    };
    let wifi_icon_w: i32 = 13;
    let wifi_x = lora_x - 2 - wifi_icon_w;
    push_op(ops, DrawOp::WifiIcon { x: wifi_x, y: 1, level: wifi_level, color: wifi_color });

    // Right label (counts etc.) to the left of the icons.
    if right_label.unicode_len() != 0 {
        let max = theme.chars_per_line(wifi_x - 2);
        let trimmed = take_chars(right_label, max);
        let n = trimmed.as_str().unicode_len();
        proof {
            if wifi_x - 2 >= 0 {
                lemma_label_fits((wifi_x - 2) as int, n as nat);
            }
        }
        let rl_x = wifi_x - 2 - (n as i32) * cw;
        draw_text(ops, rl_x, 0, trimmed.as_str(), theme.header_text);
    }
    assert(ops_view(ops@) =~= start + header_ops(width, title@, right_label@, *network, *theme));
}

/// The scrollbar of a viewport showing `total` rows from row `offset`:
/// drawn only when the rows do not all fit.
pub open spec fn scrollbar_ops(x: i32, y: i32, w: u32, h: u32, offset: usize, total: usize, border: Color) -> Seq<Op> {
    if total == 0 || total <= (h as nat) / (LINE_H as nat) {
        Seq::empty()
    } else {
        seq![Op::Scrollbar { x, y, w, h, offset, total, color: border }]
    }
}

/// Draw a scrollbar on the right edge of the viewport `x`, `y`, `w`, `h`
/// representing `offset`/`total` visible lines.
pub fn draw_scrollbar(
    ops: &mut Vec<DrawOp>,
    x: i32,
    y: i32,
    w: u32,
    h: u32,
    offset: usize,
    total: usize,
    theme: &Theme,
)
    requires
        theme.wf(),
    ensures
        ops_view(final(ops)@) == ops_view(old(ops)@) + scrollbar_ops(
            x,
            y,
            w,
            h,
            offset,
            total,
            theme.border,
        ),
{
    let ghost start = ops_view(ops@);
    if total == 0 || total as u64 <= (h as u64) / (theme.line_h as u64) {
        assert(ops_view(ops@) =~= start + scrollbar_ops(x, y, w, h, offset, total, theme.border));
        return;
    }
    push_op(ops, DrawOp::Scrollbar { x, y, w, h, offset, total, color: theme.border });
    assert(ops_view(ops@) =~= start + scrollbar_ops(x, y, w, h, offset, total, theme.border));
}

/// How many rows of a list of `n` are shown from row `first` in a viewport
/// of `visible` rows.
pub open spec fn shown_count(n: int, first: int, visible: int) -> nat {
    if first >= n {
        0
    } else if n - first < visible {
        (n - first) as nat
    } else {
        visible as nat
    }
}

/// Rows `first .. first + count` of a list, one line each from `y0`: the row
/// numbered `selected` highlighted, the others drawn in `color`.
pub open spec fn list_rows(
    labels: Seq<Seq<char>>,
    first: int,
    count: nat,
    y0: int,
    width: i32,
    selected: int,
    color: Color,
    t: Theme,
) -> Seq<Op>
    decreases count,
{
    if count == 0 {
        Seq::empty()
    } else {
        let i = first + count - 1;
        list_rows(labels, first, (count - 1) as nat, y0, width, selected, color, t) + row_ops(
            0,
            (y0 + (count - 1) * LINE_H) as i32,
            labels[i],
            width,
            i == selected,
            color,
            t,
        )
    }
}

} // verus!
