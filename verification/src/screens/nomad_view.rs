//! NomadNet page viewer screen.

use vstd::prelude::*;
use vstd::utf8::encode_utf8;

use crate::command::{Command, CommandModel};
use crate::context::{NodeEntry, ViewContext};
use crate::page::{LineModel, PageModel};
use crate::scene::{DrawOp, Op, ops_view};
use crate::theme::{Color, Theme, CHAR_W, LINE_H, rgb};
use crate::widgets::{
    EXTENT_MAX, bar_ops, cells_fit, draw_bar, draw_scrollbar, draw_text, fill_op, fill_rect,
    list_rows, px, px_of, scrollbar_ops, shown_count, text_op, truncate, truncated,
};
use crate::hex::{
    hex_of, hex16_of, hex16_sliceable, parse_hex16, check_hex16_sliceable, hex_string, byte_pair,
    pair_on_boundaries, hex_digit, lemma_hex_digit, lemma_hex_of_index, lemma_hex_of_len,
};
use crate::input::KeyCode;
use crate::page::{Link, LinkModel, Page, lines_view};
use crate::screens::chat::sub_sat;
use crate::screens::new_chat::seq_to_addr;
use crate::text::{
    find_from, starts_with, chars_of, string_of, slice_chars, find_char_from, append_chars,
    append_str, lemma_find_from_bounds,
};

verus! {

/// The page viewer.
pub struct NomadViewScreen {
    /// Node this page was fetched from.
    node: [u8; 16],
    /// First visible page line.
    scroll: usize,
    /// The link on the currently scrolled line, resolved when synced.
    current_link: Option<Link>,
}

/// Abstract value of a [`NomadViewScreen`].
pub struct NomadViewView {
    pub node: [u8; 16],
    pub scroll: usize,
    pub current_link: Option<LinkModel>,
}

/// An optional link taken by its abstract value.
pub open spec fn opt_link_view(l: Option<Link>) -> Option<LinkModel> {
    match l {
        Some(l) => Some(l@),
        None => None,
    }
}

impl View for NomadViewScreen {
    type V = NomadViewView;

    closed spec fn view(&self) -> NomadViewView {
        NomadViewView {
            node: self.node,
            scroll: self.scroll,
            current_link: opt_link_view(self.current_link),
        }
    }
}


/// The address text and the path of an `rns://<address>/<path>` target:
/// what follows `rns://`, split at its first `/`.
pub open spec fn target_parts(t: Seq<char>) -> Option<(Seq<char>, Seq<char>)> {
    if starts_with(t, "rns://"@) {
        let rest = t.subrange(6, t.len() as int);
        let p = find_from(rest, 0, '/');
        if p < rest.len() {
            Some((rest.subrange(0, p), rest.subrange(p + 1, rest.len() as int)))
        } else {
            None
        }
    } else {
        None
    }
}

/// The node address and path an `rns://<16-byte-hex>/<path>` target names;
/// the address must be 32 hex bytes.
pub open spec fn link_target_spec(t: Seq<char>) -> Option<(Seq<u8>, Seq<char>)> {
    match target_parts(t) {
        Some((hex, path)) => match hex16_of(encode_utf8(hex)) {
            Some(node) => Some((node, path)),
            None => None,
        },
        None => None,
    }
}

/// A link target built from a node address's hex and a path names that
/// node and path: `rns://<hex>/<path>` reads back as the address and the
/// path, and reading it slices the address on character boundaries.
pub proof fn lemma_link_target_round_trip(a: Seq<u8>, p: Seq<char>)
    requires
        a.len() == 16,
    ensures
        hex_of(a).len() == 32,
        link_sliceable("rns://"@ + hex_of(a) + "/"@ + p),
        link_target_spec("rns://"@ + hex_of(a) + "/"@ + p) == Some((a, p)),
{
    reveal_strlit("rns://");
    reveal_strlit("/");
    let h = hex_of(a);
    lemma_hex_of_len(a);
    let t = "rns://"@ + h + "/"@ + p;
    assert forall|i: int| 0 <= i < 32 implies {
        &&& #[trigger] h[i] == hex_digit(if i % 2 == 0 { a[i / 2] / 16 } else { a[i / 2] % 16 })
        &&& 0x30 <= (h[i] as u32) < 0x67
        &&& h[i] != '/'
    } by {
        lemma_hex_of_index(a, i / 2);
        lemma_hex_digit(a[i / 2] / 16);
        lemma_hex_digit(a[i / 2] % 16);
    }
    assert(t.subrange(0, 6) =~= "rns://"@);
    assert(starts_with(t, "rns://"@));
    let rest = t.subrange(6, t.len() as int);
    assert(rest =~= h + "/"@ + p);
    lemma_find_from_bounds(rest, 0, '/');
    assert(rest[32] == '/');
    assert(find_from(rest, 0, '/') == 32);
    assert(rest.subrange(0, 32) =~= h);
    assert(rest.subrange(33, rest.len() as int) =~= p);
    assert(target_parts(t) == Some((h, p)));
    assert(vstd::utf8::is_ascii_chars(h));
    vstd::utf8::is_ascii_chars_encode_utf8(h);
    let b = encode_utf8(h);
    assert forall|i: int| 0 <= i < 16 implies #[trigger] byte_pair(b, i) == Some(a[i]) by {
        lemma_hex_of_index(a, i);
        lemma_hex_digit(a[i] / 16);
        lemma_hex_digit(a[i] % 16);
        assert(b[2 * i] == h[2 * i] as u8);
        assert(b[2 * i + 1] == h[2 * i + 1] as u8);
        assert((a[i] / 16) * 16 + a[i] % 16 == a[i]);
    }
    assert(hex16_of(b) == Some(a)) by {
        assert(Seq::new(16, |i: int| byte_pair(b, i)->Some_0) =~= a);
    }
    assert forall|i: int| 0 <= i < 16 implies #[trigger] pair_on_boundaries(b, i) by {
        assert(b[2 * i] == h[2 * i] as u8);
        if 2 * i + 2 < 32 {
            assert(b[2 * i + 2] == h[2 * i + 2] as u8);
        }
    }
}

/// Reading the target's address slices it on character boundaries only.
pub open spec fn link_sliceable(t: Seq<char>) -> bool {
    match target_parts(t) {
        Some((hex, _)) => hex16_sliceable(encode_utf8(hex)),
        None => true,
    }
}

/// The address text and path of `t` (see [`target_parts`]).
fn split_target(t: &Vec<char>) -> (r: Option<(Vec<char>, Vec<char>)>)
    ensures
        match (r, target_parts(t@)) {
            (Some((h, p)), Some((hs, ps))) => h@ == hs && p@ == ps,
            (None, None) => true,
            _ => false,
        },
{
    let prefix = chars_of("rns://");
    proof {
        reveal_strlit("rns://");
    }
    if t.len() < 6 || t[0] != 'r' || t[1] != 'n' || t[2] != 's' || t[3] != ':' || t[4] != '/'
        || t[5] != '/' {
        proof {
            if t@.len() >= 6 {
                let s = t@.subrange(0, 6);
                assert(s[0] == t@[0] && s[1] == t@[1] && s[2] == t@[2]);
                assert(s[3] == t@[3] && s[4] == t@[4] && s[5] == t@[5]);
            }
        }
        return None;
    }
    assert(t@.subrange(0, 6) =~= "rns://"@);
    let rest = slice_chars(t, 6, t.len());
    let p = find_char_from(&rest, 0, '/');
    proof {
        lemma_find_from_bounds(rest@, 0, '/');
    }
    if p == rest.len() {
        return None;
    }
    let hex = slice_chars(&rest, 0, p);
    let path = slice_chars(&rest, p + 1, rest.len());
    Some((hex, path))
}

/// Whether [`link_sliceable`] holds of `t`.
pub fn check_link_sliceable(t: &str) -> (r: bool)
    ensures
        r == link_sliceable(t@),
{
    let v = chars_of(t);
    match split_target(&v) {
        Some((hex, _)) => {
            let text = string_of(&hex);
            check_hex16_sliceable(text.as_str().as_bytes())
        },
        None => true,
    }
}

/// Parse an `rns://<16-byte-hex>/<path>` link target into a fetch command.
pub fn parse_link_target(link: &Link) -> (r: Option<Command>)
    requires
        link_sliceable(link.target@),
    ensures
        match (r, link_target_spec(link.target@)) {
            (Some(Command::FetchPage { node, path }), Some((n, p))) => node@ == n && path@ == p,
            (None, None) => true,
            _ => false,
        },
{
    let t = chars_of(link.target.as_str());
    match split_target(&t) {
        Some((hex, path)) => {
            let text = string_of(&hex);
            match parse_hex16(text.as_str().as_bytes()) {
                Some(node) => Some(Command::FetchPage { node, path: string_of(&path) }),
                None => None,
            }
        },
        None => None,
    }
}

/// Lowercase hex of a node address.
pub fn hex(addr: &[u8; 16]) -> (s: String)
    ensures
        s@ == hex_of(addr@),
{
    hex_string(addr)
}

/// The command that following link `l` gives.
pub open spec fn follow_link(l: Option<LinkModel>) -> CommandModel {
    match l {
        Some(l) => match link_target_spec(l.target) {
            Some((node, path)) => CommandModel::FetchPage { node: seq_to_addr(node), path },
            None => CommandModel::NoOp,
        },
        None => CommandModel::NoOp,
    }
}

/// The viewer's state and command after `key`.
pub open spec fn nomad_view_key(s: NomadViewView, key: KeyCode) -> (NomadViewView, CommandModel) {
    match key {
        KeyCode::Up => (NomadViewView { scroll: sub_sat(s.scroll, 1), ..s }, CommandModel::NoOp),
        KeyCode::Down => (
            NomadViewView { scroll: (s.scroll + 1) as usize, ..s },
            CommandModel::NoOp,
        ),
        KeyCode::PageUp => (
            NomadViewView {
                scroll: if s.scroll + 6 > usize::MAX {
                    usize::MAX
                } else {
                    (s.scroll + 6) as usize
                },
                ..s
            },
            CommandModel::NoOp,
        ),
        KeyCode::PageDown => (NomadViewView { scroll: sub_sat(s.scroll, 6), ..s }, CommandModel::NoOp),
        KeyCode::Enter | KeyCode::Right => (s, follow_link(s.current_link)),
        KeyCode::Esc => (s, CommandModel::Back),
        _ => (s, CommandModel::NoOp),
    }
}

/// Whether the viewer can take `key`: Down must not overflow the scroll
/// position, and following a link must not cut its address apart.
pub open spec fn nomad_view_key_ok(s: NomadViewView, key: KeyCode) -> bool {
    &&& key == KeyCode::Down ==> s.scroll < usize::MAX
    &&& (key == KeyCode::Enter || key == KeyCode::Right) ==> match s.current_link {
        Some(l) => link_sliceable(l.target),
        None => true,
    }
}

/// The first link on line `scroll` of a page with `lines`, if any.
pub open spec fn link_at(lines: Seq<crate::page::LineModel>, scroll: usize) -> Option<LinkModel> {
    if scroll < lines.len() && lines[scroll as int].links.len() > 0 {
        Some(lines[scroll as int].links[0])
    } else {
        None
    }
}

/// The header title of a page from `node`: the node's name when known,
/// else the first eight hex digits of its address.
pub open spec fn view_title(node: [u8; 16], name: Option<Seq<char>>) -> Seq<char> {
    match name {
        Some(n) => if n.len() > 0 {
            n
        } else {
            hex_of(node@).subrange(0, 8)
        },
        None => hex_of(node@).subrange(0, 8),
    }
}

/// Page lines that fit in the body, between the header and the footer.
pub open spec fn page_visible(height: i32) -> nat {
    cells_fit(px((height - 2 * LINE_H) as i32) as i32, LINE_H)
}

/// The page lines as drawn: each cut to the width.
pub open spec fn page_labels(lines: Seq<LineModel>, width: i32) -> Seq<Seq<char>> {
    Seq::new(lines.len(), |i: int| truncated(lines[i].text, cells_fit((width - 6) as i32, CHAR_W)))
}

/// What the page viewer draws for the viewer state `s` (as synced): the
/// header with the title; the page body filled black; with no page, the
/// notice (or "No page loaded.") in white and nothing else; with a page, the
/// lines that fit from the scrolled one, in white, then the footer hint and
/// the scrollbar.
pub open spec fn nomad_view_scene(
    s: NomadViewView,
    page: Option<PageModel>,
    title: Seq<char>,
    notice: Seq<char>,
    width: i32,
    height: i32,
    t: Theme,
) -> Seq<Op> {
    let white = rgb(31, 63, 31);
    let head = bar_ops(0, 0, px(width), LINE_H as u32, title, ""@, t.header, t.header_text, t.border)
        + seq![fill_op(0, LINE_H, px(width), px((height - 2 * LINE_H) as i32), rgb(0, 0, 0))];
    match page {
        None => head + seq![
            text_op(
                0,
                LINE_H,
                if notice.len() == 0 {
                    "No page loaded."@
                } else {
                    notice
                },
                white,
            ),
        ],
        Some(p) => head + list_rows(
            page_labels(p.lines, width),
            s.scroll as int,
            shown_count(p.lines.len() as int, s.scroll as int, page_visible(height) as int),
            LINE_H as int,
            width,
            -1,
            white,
            t,
        ) + bar_ops(
            0,
            (height - LINE_H) as i32,
            px(width),
            LINE_H as u32,
            match s.current_link {
                Some(l) => "ENTER "@ + l.label,
                None => "UP/DOWN scroll | ESC back"@,
            },
            ""@,
            t.surface,
            t.text_dim,
            t.border,
        ) + scrollbar_ops(
            0,
            LINE_H,
            px(width),
            px((height - 2 * LINE_H) as i32),
            s.scroll,
            p.lines.len() as usize,
            t.border,
        ),
    }
}

impl NomadViewScreen {
    /// The node the page was fetched from.
    pub fn node(&self) -> (r: [u8; 16])
        ensures
            r == self@.node,
    {
        self.node
    }

    /// The first visible page line.
    pub fn scroll(&self) -> (r: usize)
        ensures
            r == self@.scroll,
    {
        self.scroll
    }

    /// Draw the page into a `width`×`height` frame, first syncing the link
    /// under the scrolled line.
    pub fn render(&mut self, ctx: &ViewContext, width: i32, height: i32, theme: &Theme) -> (ops: Vec<DrawOp>)
        requires
            theme.wf(),
            0 <= width <= EXTENT_MAX,
            0 <= height <= EXTENT_MAX,
        ensures
            final(self)@.node == old(self)@.node,
            final(self)@.scroll == old(self)@.scroll,
            final(self)@.current_link == match ctx.page {
                Some(p) => link_at(p@.lines, old(self)@.scroll),
                None => old(self)@.current_link,
            },
            ops_view(ops@) == nomad_view_scene(
                final(self)@,
                match ctx.page {
                    Some(p) => Some(p@),
                    None => None,
                },
                view_title(
                    old(self)@.node,
                    match ctx.page_node {
                        Some(n) => Some(n.name@),
                        None => None,
                    },
                ),
                ctx.page_notice@,
                width,
                height,
                *theme,
            ),
    {
        let mut ops: Vec<DrawOp> = Vec::new();
        // Show the node's display name when known, else its address prefix.
        let title = self.title(ctx.page_node);
        draw_bar(
            &mut ops,
            0,
            0,
            px_of(width),
            px_of(theme.line_h),
            title.as_str(),
            "",
            theme.header,
            theme.header_text,
            theme,
        );
        let body_top = theme.line_h;
        let body_h = px_of(height - body_top - theme.line_h);
        // The page area is rendered terminal-style: black background, white
        // text (independent of the app theme).
        fill_rect(&mut ops, 0, body_top, px_of(width), body_h, Color::black());
        let visible = theme.lines_fit(body_h as i32);
        let white = Color::white();
        let page = match ctx.page {
            Some(p) => p,
            None => {
                let notice = if ctx.page_notice.unicode_len() == 0 {
                    "No page loaded."
                } else {
                    ctx.page_notice
                };
                draw_text(&mut ops, 0, body_top, notice, white);
                return ops;
            },
        };
        self.sync(ctx.page);
        let lines = page.lines();
        let n = lines.len();
        let max_chars = theme.chars_per_line(width - 6);
        let ghost head = ops_view(ops@);
        let ghost labels = page_labels(page@.lines, width);
        let scroll = self.scroll;
        let mut y = body_top;
        let mut i: usize = scroll;
        while i < n && i - scroll < visible
            invariant
                scroll <= i,
                i <= n || i == scroll,
                i - scroll <= visible,
                theme.wf(),
                0 <= width <= EXTENT_MAX,
                y == LINE_H + (i - scroll) * LINE_H,
                visible as nat == page_visible(height),
                0 <= height <= EXTENT_MAX,
                lines_view(lines@) == page@.lines,
                n == lines@.len(),
                labels == page_labels(page@.lines, width),
                max_chars as nat == cells_fit((width - 6) as i32, CHAR_W),
                ops_view(ops@) == head + list_rows(
                    labels,
                    scroll as int,
                    (i - scroll) as nat,
                    LINE_H as int,
                    width,
                    -1,
                    white,
                    *theme,
                ),
            decreases n - i,
        {
            assert(lines_view(lines@)[i as int] == lines@[i as int]@);
            let text = truncate(lines[i].text.as_str(), max_chars);
            assert(text@ == labels[i as int]);
            let ghost before = ops_view(ops@);
            draw_text(&mut ops, 0, y, text.as_str(), white);
            assert(ops_view(ops@) =~= head + list_rows(
                labels,
                scroll as int,
                (i + 1 - scroll) as nat,
                LINE_H as int,
                width,
                -1,
                white,
                *theme,
            ));
            y = y + theme.line_h;
            i += 1;
        }
        assert((i - scroll) as nat == shown_count(n as int, scroll as int, page_visible(height) as int));
        let hint = self.hint();
        draw_bar(
            &mut ops,
            0,
            height - theme.line_h,
            px_of(width),
            px_of(theme.line_h),
            hint.as_str(),
            "",
            theme.surface,
            theme.text_dim,
            theme,
        );
        draw_scrollbar(&mut ops, 0, body_top, px_of(width), body_h, self.scroll, n, theme);
        ops
    }

    pub fn new(node: [u8; 16]) -> (r: Self)
        ensures
            r@ == (NomadViewView { node, scroll: 0, current_link: None }),
    {
        NomadViewScreen { node, scroll: 0, current_link: None }
    }

    /// The link on the scrolled line, as last synced.
    pub fn current_link(&self) -> (r: Option<&Link>)
        ensures
            match r {
                Some(l) => self@.current_link == Some(l@),
                None => self@.current_link is None,
            },
    {
        match &self.current_link {
            Some(l) => Some(l),
            None => None,
        }
    }

    /// Whether [`NomadViewScreen::handle_key`] can take `key` now.
    pub fn accepts(&self, key: KeyCode) -> (r: bool)
        ensures
            r == nomad_view_key_ok(self@, key),
    {
        match key {
            KeyCode::Down => self.scroll < usize::MAX,
            KeyCode::Enter | KeyCode::Right => match &self.current_link {
                Some(l) => check_link_sliceable(l.target.as_str()),
                None => true,
            },
            _ => true,
        }
    }

    /// Up/Down scroll by a line, PageUp/PageDown by six; Enter or Right
    /// follows the first link on the current line; Esc goes back.
    pub fn handle_key(&mut self, key: KeyCode) -> (r: Command)
        requires
            nomad_view_key_ok(old(self)@, key),
        ensures
            (final(self)@, r@) == nomad_view_key(old(self)@, key),
    {
        match key {
            KeyCode::Up => {
                self.scroll = self.scroll.saturating_sub(1);
                Command::NoOp
            },
            KeyCode::Down => {
                self.scroll += 1;
                Command::NoOp
            },
            KeyCode::PageUp => {
                self.scroll = self.scroll.saturating_add(6);
                Command::NoOp
            },
            KeyCode::PageDown => {
                self.scroll = self.scroll.saturating_sub(6);
                Command::NoOp
            },
            KeyCode::Enter | KeyCode::Right => {
                match &self.current_link {
                    Some(l) => match parse_link_target(l) {
                        Some(c) => {
                            proof {
                                let (n, p) = link_target_spec(l.target@)->Some_0;
                                let a = seq_to_addr(n);
                                match c {
                                    Command::FetchPage { node, .. } => {
                                        assert(a@ == n);
                                        assert(a@ =~= node@);
                                        assert(a == node);
                                    },
                                    _ => {},
                                }
                            }
                            c
                        },
                        None => Command::NoOp,
                    },
                    None => Command::NoOp,
                }
            },
            KeyCode::Esc => Command::Back,
            _ => Command::NoOp,
        }
    }

    /// Resolve the link under the scrolled line against the shown page
    /// (nothing changes while no page is loaded).
    pub fn sync(&mut self, page: Option<&Page>)
        ensures
            final(self)@.node == old(self)@.node,
            final(self)@.scroll == old(self)@.scroll,
            final(self)@.current_link == match page {
                Some(p) => link_at(p@.lines, old(self)@.scroll),
                None => old(self)@.current_link,
            },
    {
        if let Some(p) = page {
            let lines = p.lines();
            self.current_link = if self.scroll < lines.len() && lines[self.scroll].links.len() > 0 {
                proof {
                    assert(lines_view(lines@)[self.scroll as int] == lines@[self.scroll as int]@);
                }
                Some(lines[self.scroll].links[0].copy())
            } else {
                None
            };
        }
    }

    /// Header title: the node's name when known, else its address prefix.
    pub fn title(&self, page_node: Option<&NodeEntry>) -> (r: String)
        ensures
            r@ == match page_node {
                Some(n) => if n.name@.len() > 0 {
                    n.name@
                } else {
                    hex_of(self@.node@).subrange(0, 8)
                },
                None => hex_of(self@.node@).subrange(0, 8),
            },
    {
        if let Some(n) = page_node {
            if !n.name.as_str().is_empty() {
                return n.name.clone();
            }
        }
        let h = hex(&self.node);
        let v = chars_of(h.as_str());
        proof {
            crate::hex::lemma_hex_len(self.node@);
        }
        let head = slice_chars(&v, 0, 8);
        string_of(&head)
    }

    /// Footer hint: the link to follow, or how to scroll.
    pub fn hint(&self) -> (r: String)
        ensures
            r@ == match self@.current_link {
                Some(l) => "ENTER "@ + l.label,
                None => "UP/DOWN scroll | ESC back"@,
            },
    {
        match &self.current_link {
            Some(l) => {
                let mut v = chars_of("ENTER ");
                append_str(&mut v, l.label.as_str());
                string_of(&v)
            },
            None => string_of(&chars_of("UP/DOWN scroll | ESC back")),
        }
    }
}

} // verus!
