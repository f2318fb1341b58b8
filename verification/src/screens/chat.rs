//! Open conversation screen: message history + composer.

use vstd::prelude::*;

use crate::command::{Command, CommandModel};
use crate::input::{KeyCode, is_ascii_char};
use crate::hex::{hex_chars, hex_of};
use crate::text::{trim, trim_string, string_push, string_pop, string_of, concat};
use crate::bytes::same16;
use crate::context::{ChatMessage, ChatMessageModel, Conversation, ViewContext};
use crate::scene::{DrawOp, Op, ops_view};
use crate::theme::{Theme, CHAR_W, LINE_H};
use crate::widgets::{
    EXTENT_MAX, bar_ops, cells_fit, draw_bar, draw_text, fill_op, fill_rect, px, px_of, text_op,
    truncate, truncated, wrap, wrap_spec, strings_view,
};
use crate::screens::new_chat::blink_on;

verus! {

/// Rows scrolled by PageUp / PageDown.
pub const PAGE_ROWS: usize = 6;

/// An open conversation.
#[derive(Debug)]
pub struct ChatScreen {
    /// Peer this conversation is with.
    peer: [u8; 16],
    /// Composer input buffer.
    input: String,
    /// Last send error, shown in the status line.
    error: Option<String>,
    /// First visible message row (0 = bottom, larger = older).
    scroll: usize,
    /// Follow new messages (auto-scroll to bottom).
    following: bool,
}

/// Abstract value of a [`ChatScreen`].
pub struct ChatView {
    pub peer: [u8; 16],
    pub input: Seq<char>,
    pub error: Option<Seq<char>>,
    pub scroll: usize,
    pub following: bool,
}

/// An optional string taken by its characters.
pub open spec fn opt_view(o: Option<String>) -> Option<Seq<char>> {
    match o {
        Some(s) => Some(s@),
        None => None,
    }
}

impl View for ChatScreen {
    type V = ChatView;

    closed spec fn view(&self) -> ChatView {
        ChatView {
            peer: self.peer,
            input: self.input@,
            error: opt_view(self.error),
            scroll: self.scroll,
            following: self.following,
        }
    }
}


/// `a - b`, not below zero.
pub open spec fn sub_sat(a: usize, b: usize) -> usize {
    if a < b {
        0
    } else {
        (a - b) as usize
    }
}

/// `s` without its last character (unchanged when empty).
pub open spec fn drop_last_char(s: Seq<char>) -> Seq<char> {
    if s.len() > 0 {
        s.drop_last()
    } else {
        s
    }
}

/// Whether the chat screen can take `key` without its scroll counter
/// overflowing.
pub open spec fn chat_key_ok(s: ChatView, key: KeyCode) -> bool {
    &&& key == KeyCode::PageUp ==> s.scroll + PAGE_ROWS <= usize::MAX
    &&& key == KeyCode::Up ==> s.scroll + 1 <= usize::MAX
}

/// Backspace in the composer removes exactly the last character typed and
/// nothing else: the draft keeps all its earlier characters, the rest of
/// the screen is untouched and no command is issued; so typing a character
/// and then pressing Backspace gives the screen back as it was.
pub proof fn lemma_chat_backspace(s: ChatView, c: char)
    ensures
        chat_key(s, KeyCode::Backspace).1 == CommandModel::NoOp,
        s.input.len() > 0 ==> chat_key(s, KeyCode::Backspace).0.input.len() + 1 == s.input.len(),
        s.input.len() > 0 ==> forall|j: int|
            0 <= j < s.input.len() - 1 ==> #[trigger] chat_key(s, KeyCode::Backspace).0.input[j]
                == s.input[j],
        s.input.len() == 0 ==> chat_key(s, KeyCode::Backspace).0 == s,
        chat_key(s, KeyCode::Backspace).0.peer == s.peer,
        chat_key(s, KeyCode::Backspace).0.error == s.error,
        chat_key(s, KeyCode::Backspace).0.scroll == s.scroll,
        chat_key(s, KeyCode::Backspace).0.following == s.following,
        is_ascii_char(c) ==> chat_key(chat_key(s, KeyCode::Char(c)).0, KeyCode::Backspace).0 == s,
{
    if is_ascii_char(c) {
        assert(s.input.push(c).drop_last() =~= s.input);
    }
}

/// The chat screen's state and command after `key`.
pub open spec fn chat_key(s: ChatView, key: KeyCode) -> (ChatView, CommandModel) {
    match key {
        KeyCode::Char(c) => if is_ascii_char(c) {
            (ChatView { input: s.input.push(c), ..s }, CommandModel::NoOp)
        } else {
            (s, CommandModel::NoOp)
        },
        KeyCode::Space => (ChatView { input: s.input.push(' '), ..s }, CommandModel::NoOp),
        KeyCode::Backspace => (
            ChatView { input: drop_last_char(s.input), ..s },
            CommandModel::NoOp,
        ),
        KeyCode::Enter => if trim(s.input).len() == 0 {
            (s, CommandModel::NoOp)
        } else {
            (
                ChatView { input: Seq::empty(), following: true, ..s },
                CommandModel::SendMessage { peer: s.peer, text: trim(s.input) },
            )
        },
        KeyCode::PageUp => (
            ChatView { following: false, scroll: (s.scroll + PAGE_ROWS) as usize, ..s },
            CommandModel::NoOp,
        ),
        KeyCode::PageDown => (
            ChatView { following: false, scroll: sub_sat(s.scroll, PAGE_ROWS), ..s },
            CommandModel::NoOp,
        ),
        KeyCode::Down => (ChatView { scroll: sub_sat(s.scroll, 1), ..s }, CommandModel::NoOp),
        KeyCode::Up => (
            ChatView { following: false, scroll: (s.scroll + 1) as usize, ..s },
            CommandModel::NoOp,
        ),
        KeyCode::Esc => (s, CommandModel::Back),
        _ => (s, CommandModel::NoOp),
    }
}

/// The first visible row after laying out `total` rows in `visible` rows.
pub open spec fn synced_scroll(s: ChatView, total: usize, visible: usize) -> usize {
    let bottom = sub_sat(total, visible);
    let sc = if s.following {
        bottom
    } else {
        s.scroll
    };
    if sc < bottom {
        sc
    } else {
        bottom
    }
}

impl ChatScreen {
    pub fn new(peer: [u8; 16]) -> (r: Self)
        ensures
            r@ == (ChatView {
                peer,
                input: Seq::empty(),
                error: None,
                scroll: 0,
                following: true,
            }),
    {
        ChatScreen { peer, input: String::new(), error: None, scroll: 0, following: true }
    }

    /// Re-target this screen at a different peer (used when re-opening).
    pub fn open(&mut self, peer: [u8; 16])
        ensures
            final(self)@ == (ChatView {
                peer,
                input: Seq::empty(),
                error: None,
                scroll: 0,
                following: true,
            }),
    {
        self.peer = peer;
        self.input = String::new();
        self.error = None;
        self.scroll = 0;
        self.following = true;
    }

    /// Jump to the newest messages.
    pub fn follow(&mut self)
        ensures
            final(self)@ == (ChatView { following: true, scroll: 0, ..old(self)@ }),
    {
        self.following = true;
        self.scroll = 0;
    }

    /// The peer this conversation is with.
    pub fn peer(&self) -> (r: [u8; 16])
        ensures
            r == self@.peer,
    {
        self.peer
    }

    /// The last send error, if any.
    pub fn error(&self) -> (r: Option<&str>)
        ensures
            match r {
                Some(e) => self@.error == Some(e@),
                None => self@.error is None,
            },
    {
        match &self.error {
            Some(e) => Some(e.as_str()),
            None => None,
        }
    }

    /// The text in the composer.
    pub fn input(&self) -> (r: &str)
        ensures
            r@ == self@.input,
    {
        self.input.as_str()
    }

    /// The first visible message row.
    pub fn scroll(&self) -> (r: usize)
        ensures
            r == self@.scroll,
    {
        self.scroll
    }

    /// Whether the view follows new messages.
    pub fn following(&self) -> (r: bool)
        ensures
            r == self@.following,
    {
        self.following
    }

    /// Whether `key` can be taken without the scroll counter overflowing.
    pub fn accepts(&self, key: KeyCode) -> (r: bool)
        ensures
            r == chat_key_ok(self@, key),
    {
        match key {
            KeyCode::PageUp => self.scroll <= usize::MAX - PAGE_ROWS,
            KeyCode::Up => self.scroll < usize::MAX,
            _ => true,
        }
    }

    /// Edit the composer with text keys and Backspace, send with Enter,
    /// scroll with Up/Down/PageUp/PageDown, go back with Esc.
    pub fn handle_key(&mut self, key: KeyCode) -> (r: Command)
        requires
            chat_key_ok(old(self)@, key),
        ensures
            (final(self)@, r@) == chat_key(old(self)@, key),
    {
        match key {
            KeyCode::Char(c) => {
                if (c as u32) <= 0x7f {
                    string_push(&mut self.input, c);
                }
                Command::NoOp
            },
            KeyCode::Space => {
                string_push(&mut self.input, ' ');
                Command::NoOp
            },
            KeyCode::Backspace => {
                string_pop(&mut self.input);
                Command::NoOp
            },
            KeyCode::Enter => {
                let text = trim_string(self.input.as_str());
                if text.as_str().is_empty() {
                    return Command::NoOp;
                }
                self.input = String::new();
                self.following = true;
                Command::SendMessage { peer: self.peer, text }
            },
            KeyCode::PageUp => {
                self.following = false;
                self.scroll = self.scroll + PAGE_ROWS;
                Command::NoOp
            },
            KeyCode::PageDown => {
                self.following = false;
                self.scroll = if self.scroll < PAGE_ROWS {
                    0
                } else {
                    self.scroll - PAGE_ROWS
                };
                Command::NoOp
            },
            KeyCode::Down => {
                self.scroll = if self.scroll < 1 {
                    0
                } else {
                    self.scroll - 1
                };
                Command::NoOp
            },
            KeyCode::Up => {
                self.following = false;
                self.scroll = self.scroll + 1;
                Command::NoOp
            },
            KeyCode::Esc => Command::Back,
            _ => Command::NoOp,
        }
    }

    /// Lay out `total` message rows in a body of `visible` rows: a following
    /// view jumps to the newest rows, and the scroll never passes the top.
    pub fn sync_scroll(&mut self, total: usize, visible: usize)
        ensures
            final(self)@ == (ChatView {
                scroll: synced_scroll(old(self)@, total, visible),
                ..old(self)@
            }),
    {
        let bottom = if total < visible {
            0
        } else {
            total - visible
        };
        if self.following {
            self.scroll = bottom;
        }
        if self.scroll > bottom {
            self.scroll = bottom;
        }
    }
}

/// Index of the first of the first `n` conversations that is with `peer`.
pub open spec fn first_with_peer(cs: Seq<Conversation>, peer: [u8; 16], n: int) -> Option<int>
    decreases n,
{
    if n <= 0 {
        None
    } else {
        match first_with_peer(cs, peer, n - 1) {
            Some(k) => Some(k),
            None => if cs[n - 1].peer == peer {
                Some(n - 1)
            } else {
                None
            },
        }
    }
}

/// The title of a conversation with `peer`: the peer's name from the first
/// conversation with it when that has one, else the start of its address.
pub open spec fn chat_title(peer: [u8; 16], cs: Seq<Conversation>) -> Seq<char> {
    let fallback = hex_of(peer@.subrange(0, 4)).push('~');
    match first_with_peer(cs, peer, cs.len() as int) {
        Some(k) => if cs[k].peer_name@.len() > 0 {
            cs[k].peer_name@
        } else {
            fallback
        },
        None => fallback,
    }
}

/// The rows of one message: its content wrapped to `max` characters, each
/// line marked `<` (received) or `>` (sent).
pub open spec fn message_rows(m: ChatMessageModel, max: nat) -> Seq<(bool, Seq<char>)> {
    let prefix = if m.incoming {
        "<"@
    } else {
        ">"@
    };
    let lines = wrap_spec(m.content, max);
    Seq::new(lines.len(), |i: int| (m.incoming, prefix + " "@ + lines[i]))
}

/// The rows of the first `k` messages, each followed by an empty spacer row.
pub open spec fn rows_upto(ms: Seq<ChatMessage>, max: nat, k: nat) -> Seq<(bool, Seq<char>)>
    decreases k,
{
    if k == 0 {
        Seq::empty()
    } else {
        let r = rows_upto(ms, max, (k - 1) as nat) + message_rows(ms[k - 1]@, max);
        if r.len() > 0 {
            r.push((false, Seq::empty()))
        } else {
            r
        }
    }
}

/// The message rows of a conversation: the rows of every message with a
/// spacer between messages.
pub open spec fn chat_rows(ms: Seq<ChatMessage>, max: nat) -> Seq<(bool, Seq<char>)> {
    let r = rows_upto(ms, max, ms.len());
    if r.len() > 0 {
        r.drop_last()
    } else {
        r
    }
}

/// The rows of `v`, each with its text taken by characters.
pub open spec fn rows_view(v: Seq<(bool, String)>) -> Seq<(bool, Seq<char>)> {
    v.map_values(|p: (bool, String)| (p.0, p.1@))
}

/// Rows `first .. first + count` drawn from the top of the body: received
/// ones in the text colour, sent ones dimmed, spacers left blank.
pub open spec fn message_row_ops(
    rows: Seq<(bool, Seq<char>)>,
    first: int,
    count: nat,
    t: Theme,
) -> Seq<Op>
    decreases count,
{
    if count == 0 {
        Seq::empty()
    } else {
        let before = message_row_ops(rows, first, (count - 1) as nat, t);
        let row = rows[first + count - 1];
        if row.1.len() == 0 {
            before
        } else {
            before.push(
                text_op(
                    0,
                    (LINE_H + (count - 1) * LINE_H) as i32,
                    row.1,
                    if row.0 {
                        t.text
                    } else {
                        t.text_dim
                    },
                ),
            )
        }
    }
}

/// Rows of messages that fit between the header and the status line.
pub open spec fn chat_visible(height: i32) -> nat {
    cells_fit(px((height - 3 * LINE_H) as i32) as i32, LINE_H)
}

/// Characters of a message line, leaving room for its marker.
pub open spec fn chat_chars(width: i32) -> nat {
    cells_fit((width - 8) as i32, CHAR_W)
}

/// What the chat screen draws for the screen state `s` (after scrolling):
/// the header with the title; the message rows that fit from the scrolled
/// one; the composer on the surface colour with a prompt, the typed text
/// (a placeholder while empty) and a blinking block cursor; and the status
/// line with the last error or the key hint.
pub open spec fn chat_scene(
    s: ChatView,
    title: Seq<char>,
    rows: Seq<(bool, Seq<char>)>,
    uptime_ms: u64,
    width: i32,
    height: i32,
    t: Theme,
) -> Seq<Op> {
    let composer_y = (height - LINE_H) as i32;
    let status_y = (height - 2 * LINE_H) as i32;
    let count = if s.scroll >= rows.len() {
        0
    } else if rows.len() - s.scroll < chat_visible(height) {
        (rows.len() - s.scroll) as nat
    } else {
        chat_visible(height)
    };
    let shown = if s.input.len() == 0 {
        "Type a message..."@
    } else {
        s.input
    };
    let cursor = if blink_on(uptime_ms) {
        seq![
            fill_op(
                (2 * CHAR_W + s.input.len() * CHAR_W) as i32,
                composer_y,
                CHAR_W as u32,
                LINE_H as u32,
                t.accent,
            ),
        ]
    } else {
        Seq::empty()
    };
    let status = match s.error {
        Some(e) => text_op(0, status_y, truncated(e, cells_fit((width - 4) as i32, CHAR_W)), t.danger),
        None => text_op(0, status_y, "ENTER send | PgUp/PgDn scroll"@, t.text_dim),
    };
    bar_ops(0, 0, px(width), LINE_H as u32, title, ""@, t.header, t.header_text, t.border)
        + message_row_ops(rows, s.scroll as int, count, t) + seq![
        fill_op(0, composer_y, px(width), LINE_H as u32, t.surface),
        text_op(0, composer_y, "> "@, t.accent),
        text_op((2 * CHAR_W) as i32, composer_y, truncated(shown, (chat_chars(width) - 2) as nat), t.text),
    ] + cursor + seq![status]
}

/// The index of the first conversation with `peer`, if any.
fn find_conversation(cs: &[Conversation], peer: &[u8; 16]) -> (r: Option<usize>)
    ensures
        match r {
            Some(k) => first_with_peer(cs@, *peer, cs@.len() as int) == Some(k as int) && k < cs@.len(),
            None => first_with_peer(cs@, *peer, cs@.len() as int) is None,
        },
{
    let mut i: usize = 0;
    while i < cs.len()
        invariant
            i <= cs@.len(),
            first_with_peer(cs@, *peer, i as int) is None,
        decreases cs@.len() - i,
    {
        if same16(&cs[i].peer, peer) {
            assert(first_with_peer(cs@, *peer, (i + 1) as int) == Some(i as int));
            proof {
                lemma_first_with_peer_stays(cs@, *peer, (i + 1) as int, cs@.len() as int);
            }
            return Some(i);
        }
        i += 1;
    }
    None
}

/// Once found among the first `n`, the first conversation with a peer stays
/// the first among more.
proof fn lemma_first_with_peer_stays(cs: Seq<Conversation>, peer: [u8; 16], n: int, m: int)
    requires
        0 <= n <= m,
        first_with_peer(cs, peer, n) is Some,
    ensures
        first_with_peer(cs, peer, m) == first_with_peer(cs, peer, n),
    decreases m - n,
{
    if m > n {
        lemma_first_with_peer_stays(cs, peer, n, m - 1);
    }
}

/// The message rows of `ms` wrapped to `max` characters (see
/// [`chat_rows`]).
fn build_rows(ms: &[ChatMessage], max: usize) -> (r: Vec<(bool, String)>)
    ensures
        rows_view(r@) == chat_rows(ms@, max as nat),
{
    let mut rows: Vec<(bool, String)> = Vec::new();
    let mut k: usize = 0;
    while k < ms.len()
        invariant
            k <= ms@.len(),
            rows_view(rows@) == rows_upto(ms@, max as nat, k as nat),
        decreases ms@.len() - k,
    {
        let msg = &ms[k];
        let lines = wrap(msg.content.as_str(), max);
        let prefix = if msg.incoming {
            "<"
        } else {
            ">"
        };
        let ghost start = rows_view(rows@);
        let ghost mr = message_rows(msg@, max as nat);
        let mut j: usize = 0;
        while j < lines.len()
            invariant
                j <= lines@.len(),
                strings_view(lines@) == wrap_spec(msg@.content, max as nat),
                mr == message_rows(msg@, max as nat),
                prefix@ == (if msg.incoming { "<"@ } else { ">"@ }),
                rows_view(rows@) == start + mr.subrange(0, j as int),
            decreases lines@.len() - j,
        {
            let head = concat(prefix, " ");
            let line = concat(head.as_str(), lines[j].as_str());
            assert(lines@[j as int]@ == strings_view(lines@)[j as int]);
            let ghost before = rows@;
            rows.push((msg.incoming, line));
            assert(rows_view(rows@) =~= rows_view(before).push((msg.incoming, line@)));
            assert(mr.subrange(0, (j + 1) as int) =~= mr.subrange(0, j as int).push(mr[j as int]));
            j += 1;
        }
        assert(mr.subrange(0, lines@.len() as int) =~= mr);
        if rows.len() > 0 {
            let ghost before = rows@;
            rows.push((false, String::new()));
            assert(rows_view(rows@) =~= rows_view(before).push((false, Seq::empty())));
        }
        k += 1;
    }
    if rows.len() > 0 {
        let ghost before = rows@;
        rows.pop();
        assert(rows_view(rows@) =~= rows_view(before).drop_last());
    }
    rows
}

/// The title of a conversation with `peer` (see [`chat_title`]).
fn title_for(peer: &[u8; 16], cs: &[Conversation]) -> (r: String)
    ensures
        r@ == chat_title(*peer, cs@),
{
    // Show the peer's display name when known, else the address prefix.
    let fallback = hex_prefix(peer);
    match find_conversation(cs, peer) {
        Some(k) => if cs[k].peer_name.as_str().unicode_len() == 0 {
            fallback
        } else {
            proof {
                reveal_strlit("");
                assert(cs@[k as int].peer_name@ + ""@ =~= cs@[k as int].peer_name@);
            }
            concat(cs[k].peer_name.as_str(), "")
        },
        None => fallback,
    }
}

/// Draw the rows `first ..` that fit in `visible` lines from the top of the
/// chat body (see [`message_row_ops`]).
fn draw_message_rows(
    ops: &mut Vec<DrawOp>,
    rows: &Vec<(bool, String)>,
    first: usize,
    visible: usize,
    theme: &Theme,
)
    requires
        theme.wf(),
        visible <= EXTENT_MAX / LINE_H,
    ensures
        ops_view(final(ops)@) == ops_view(old(ops)@) + message_row_ops(
            rows_view(rows@),
            first as int,
            (if first >= rows@.len() {
                0
            } else if rows@.len() - first < visible {
                rows@.len() - first
            } else {
                visible as int
            }) as nat,
            *theme,
        ),
{
    let ghost rv = rows_view(rows@);
    let ghost head = ops_view(ops@);
    let total = rows.len();
    let mut y = theme.line_h;
    let mut i: usize = first;
    while i < total && i - first < visible
        invariant
            first <= i,
            i <= total || i == first,
            i - first <= visible,
            visible <= EXTENT_MAX / LINE_H,
            theme.wf(),
            y == LINE_H + (i - first) * LINE_H,
            total == rows@.len(),
            rv == rows_view(rows@),
            ops_view(ops@) == head + message_row_ops(rv, first as int, (i - first) as nat, *theme),
        decreases total - i,
    {
        let incoming = rows[i].0;
        let line = &rows[i].1;
        assert(rv[i as int] == (incoming, line@));
        if line.as_str().unicode_len() != 0 {
            // Incoming messages stand out; outgoing are dimmed.
            let color = if incoming {
                theme.text
            } else {
                theme.text_dim
            };
            draw_text(ops, 0, y, line.as_str(), color);
        }
        y = y + theme.line_h;
        i += 1;
    }
}

impl ChatScreen {
    /// Draw the composer line and the status line at the bottom of a
    /// `width`×`height` frame.
    fn draw_composer(&self, ops: &mut Vec<DrawOp>, uptime_ms: u64, width: i32, height: i32, theme: &Theme)
        requires
            theme.wf(),
            20 <= width <= EXTENT_MAX,
            0 <= height <= EXTENT_MAX,
            blink_on(uptime_ms) ==> 2 * CHAR_W + self@.input.len() * CHAR_W <= i32::MAX,
        ensures
            ({
                let s = self@;
                let t = *theme;
                let composer_y = (height - LINE_H) as i32;
                let status_y = (height - 2 * LINE_H) as i32;
                let shown = if s.input.len() == 0 {
                    "Type a message..."@
                } else {
                    s.input
                };
                let cursor = if blink_on(uptime_ms) {
                    seq![
                        fill_op(
                            (2 * CHAR_W + s.input.len() * CHAR_W) as i32,
                            composer_y,
                            CHAR_W as u32,
                            LINE_H as u32,
                            t.accent,
                        ),
                    ]
                } else {
                    Seq::empty()
                };
                let status = match s.error {
                    Some(e) => text_op(
                        0,
                        status_y,
                        truncated(e, cells_fit((width - 4) as i32, CHAR_W)),
                        t.danger,
                    ),
                    None => text_op(0, status_y, "ENTER send | PgUp/PgDn scroll"@, t.text_dim),
                };
                ops_view(final(ops)@) == ops_view(old(ops)@) + seq![
                    fill_op(0, composer_y, px(width), LINE_H as u32, t.surface),
                    text_op(0, composer_y, "> "@, t.accent),
                    text_op(
                        (2 * CHAR_W) as i32,
                        composer_y,
                        truncated(shown, (chat_chars(width) - 2) as nat),
                        t.text,
                    ),
                ] + cursor + seq![status]
            }),
    {
        let ghost start = ops_view(ops@);
        let composer_y = height - theme.line_h;
        let status_y = composer_y - theme.line_h;
        // Composer with a prompt marker.
        fill_rect(ops, 0, composer_y, px_of(width), px_of(theme.line_h), theme.surface);
        draw_text(ops, 0, composer_y, "> ", theme.accent);
        let prompt_w = 2 * theme.char_w;
        let text = if self.input.as_str().unicode_len() == 0 {
            "Type a message..."
        } else {
            self.input.as_str()
        };
        let text = truncate(text, theme.chars_per_line(width - 8) - 2);
        draw_text(ops, prompt_w, composer_y, text.as_str(), theme.text);
        let ghost mid = ops_view(ops@);

        // Cursor (blinking).
        let blink_on = (uptime_ms / 500) % 2 == 0;
        if blink_on {
            let cursor_chars = self.input.as_str().unicode_len() as i32;
            let cx = prompt_w + cursor_chars * theme.char_w;
            fill_rect(ops, cx, composer_y, px_of(theme.char_w), px_of(theme.line_h), theme.accent);
        }

        // Status line (send errors / hints).
        match &self.error {
            Some(e) => {
                let status = truncate(e.as_str(), theme.chars_per_line(width - 4));
                draw_text(ops, 0, status_y, status.as_str(), theme.danger);
            },
            None => {
                draw_text(ops, 0, status_y, "ENTER send | PgUp/PgDn scroll", theme.text_dim);
            },
        }
    }

    /// Draw the conversation into a `width`×`height` frame: lay out the
    /// message rows, scroll (see [`ChatScreen::sync_scroll`]) and draw.
    pub fn render(&mut self, ctx: &ViewContext, width: i32, height: i32, theme: &Theme) -> (ops: Vec<DrawOp>)
        requires
            theme.wf(),
            20 <= width <= EXTENT_MAX,
            0 <= height <= EXTENT_MAX,
            blink_on(ctx.network.uptime_ms) ==> 2 * CHAR_W + old(self)@.input.len() * CHAR_W
                <= i32::MAX,
        ensures
            final(self)@ == (ChatView {
                scroll: synced_scroll(
                    old(self)@,
                    chat_rows(ctx.messages@, chat_chars(width)).len() as usize,
                    chat_visible(height) as usize,
                ),
                ..old(self)@
            }),
            ops_view(ops@) == chat_scene(
                final(self)@,
                chat_title(old(self)@.peer, ctx.conversations@),
                chat_rows(ctx.messages@, chat_chars(width)),
                ctx.network.uptime_ms,
                width,
                height,
                *theme,
            ),
    {
        let mut ops: Vec<DrawOp> = Vec::new();
        let title = title_for(&self.peer, ctx.conversations);
        draw_bar(
            &mut ops,
            0,
            0,
            px_of(width),
            px_of(theme.line_h),
            title.as_str(),
            "",
            theme.header,
            theme.header_text,
            theme,
        );
        let body_top = theme.line_h;
        let status_y = height - 2 * theme.line_h;
        let body_h = px_of(status_y - body_top);

        // Build the flattened message rows.
        let max_chars = theme.chars_per_line(width - 8);
        let rows = build_rows(ctx.messages, max_chars);
        let visible = theme.lines_fit(body_h as i32);
        assert(visible <= EXTENT_MAX / LINE_H) by (nonlinear_arith)
            requires
                visible as nat == crate::widgets::cells_fit(body_h as i32, LINE_H),
                body_h <= EXTENT_MAX,
        ;
        let total = rows.len();
        self.sync_scroll(total, visible);
        draw_message_rows(&mut ops, &rows, self.scroll, visible, theme);
        self.draw_composer(&mut ops, ctx.network.uptime_ms, width, height, theme);
        assert(ops_view(ops@) =~= chat_scene(
            self@,
            chat_title(old(self)@.peer, ctx.conversations@),
            rows_view(rows@),
            ctx.network.uptime_ms,
            width,
            height,
            *theme,
        ));
        ops
    }
}

/// The fallback title of a conversation: the first four address bytes in
/// hex, followed by `~`.
pub fn hex_prefix(peer: &[u8; 16]) -> (r: String)
    ensures
        r@ == hex_of(peer@.subrange(0, 4)).push('~'),
{
    let head: [u8; 4] = [peer[0], peer[1], peer[2], peer[3]];
    let mut v = hex_chars(&head);
    v.push('~');
    proof {
        assert(head@ =~= peer@.subrange(0, 4));
    }
    string_of(&v)
}

} // verus!
