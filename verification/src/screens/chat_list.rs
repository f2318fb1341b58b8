//! Conversation list screen.

use vstd::prelude::*;

use crate::command::{Command, ScreenId};
use crate::context::Conversation;
use crate::input::KeyCode;
use crate::screens::chat::drop_last_char;
use crate::screens::filter::{is_ascii_graphic, matching_conversations, filter_conversations};
use crate::screens::list::{ListState, dec_sat, moved_down, clamped};
use crate::context::{ConversationModel, NetworkState, ViewContext};
use crate::scene::{DrawOp, Op, ops_view};
use crate::screens::list::visible_scroll;
use crate::text::{string_push, string_pop, concat, decimal, u64_to_string};
use crate::theme::{Theme, CHAR_W, LINE_H};
use crate::widgets::{
    EXTENT_MAX, bar_ops, cells_fit, draw_bar, draw_header, draw_row, draw_scrollbar, draw_text,
    header_ops, list_rows, px, px_of, row_ops, scrollbar_ops, shown_count, text_op, truncate,
    truncated,
};
use vstd::utf8::{encode_utf8, decode_utf8, is_char_boundary};

verus! {

/// The conversation list, with a "+ New message" row on top unless a
/// search filter is active.
#[derive(Debug)]
pub struct ChatListScreen {
    state: ListState,
    /// Peer of the currently selected conversation, resolved when synced.
    selected_peer: Option<[u8; 16]>,
    /// Total rows known when synced ("New message" + conversations).
    item_count: usize,
    /// Live search filter: matches the peer's name or address. Empty = no
    /// filtering. Typing on this screen edits it.
    filter: String,
}

/// Abstract value of a [`ChatListScreen`].
pub struct ChatListView {
    pub state: ListState,
    pub selected_peer: Option<[u8; 16]>,
    pub item_count: usize,
    pub filter: Seq<char>,
}

impl View for ChatListScreen {
    type V = ChatListView;

    closed spec fn view(&self) -> ChatListView {
        ChatListView {
            state: self.state,
            selected_peer: self.selected_peer,
            item_count: self.item_count,
            filter: self.filter@,
        }
    }
}


/// The command that opens the selected conversation, if any.
pub open spec fn open_selected(p: Option<[u8; 16]>) -> Command {
    match p {
        Some(peer) => Command::StartChat(peer),
        None => Command::NoOp,
    }
}

/// The list state with the selection and scroll reset to the top.
pub open spec fn reset(s: ListState) -> ListState {
    ListState { selected: 0, scroll: 0 }
}

/// The conversation list's state and command after `key`.
pub open spec fn chat_list_key(s: ChatListView, key: KeyCode) -> (ChatListView, Command) {
    match key {
        KeyCode::Char(c) if is_ascii_graphic(c) => (
            ChatListView { filter: s.filter.push(c), state: reset(s.state), ..s },
            Command::NoOp,
        ),
        KeyCode::Space => (
            ChatListView { filter: s.filter.push(' '), state: reset(s.state), ..s },
            Command::NoOp,
        ),
        KeyCode::Backspace => (
            ChatListView { filter: drop_last_char(s.filter), state: reset(s.state), ..s },
            Command::NoOp,
        ),
        KeyCode::Up => (
            ChatListView {
                state: ListState { selected: dec_sat(s.state.selected), ..s.state },
                ..s
            },
            Command::NoOp,
        ),
        KeyCode::Down => (
            ChatListView {
                state: ListState {
                    selected: moved_down(s.state.selected, s.item_count),
                    ..s.state
                },
                ..s
            },
            Command::NoOp,
        ),
        KeyCode::Enter => if s.filter.len() != 0 {
            (s, open_selected(s.selected_peer))
        } else if s.state.selected == 0 {
            (s, Command::ShowScreen(ScreenId::NewChat))
        } else {
            (s, open_selected(s.selected_peer))
        },
        KeyCode::Esc => (s, Command::Back),
        _ => (s, Command::NoOp),
    }
}

/// Whether the conversation list can take `key` without overflowing.
pub open spec fn chat_list_key_ok(s: ChatListView, key: KeyCode) -> bool {
    key == KeyCode::Down && s.item_count > 0 ==> s.state.selected < usize::MAX
}

/// The list after [`ChatListScreen::sync`] against `cs`: the row count
/// ("+ New message" unless filtering, plus the matching conversations), the
/// selection clamped to the rows, and the peer of the match on the
/// selected row.
pub open spec fn chat_list_synced(s: ChatListView, cs: Seq<Conversation>) -> ChatListView {
    let m = matching_conversations(cs, s.filter, cs.len() as int);
    let has_new = s.filter.len() == 0;
    let count = (m.len() + if has_new {
        1int
    } else {
        0int
    }) as usize;
    let state = clamped(s.state, count);
    let idx: int = if has_new {
        dec_sat(state.selected) as int
    } else {
        state.selected as int
    };
    ChatListView {
        state,
        selected_peer: if idx < m.len() {
            Some(cs[m[idx] as int].peer)
        } else {
            None
        },
        item_count: count,
        filter: s.filter,
    }
}

/// Top of the list body: below the header, and below the search line while
/// filtering.
pub open spec fn chat_list_body_top(filter: Seq<char>) -> int {
    if filter.len() == 0 {
        LINE_H as int
    } else {
        2 * LINE_H
    }
}

/// Rows that fit between the list body's top and the footer.
pub open spec fn chat_list_visible(filter: Seq<char>, height: i32) -> nat {
    cells_fit((height - chat_list_body_top(filter) - LINE_H) as i32, LINE_H)
}

/// The list after [`ChatListScreen::render`]: synced, then scrolled so that
/// the selection is visible.
pub open spec fn chat_list_rendered(s: ChatListView, cs: Seq<Conversation>, height: i32) -> ChatListView {
    let v = chat_list_synced(s, cs);
    ChatListView {
        state: ListState {
            selected: v.state.selected,
            scroll: visible_scroll(v.state, chat_list_visible(s.filter, height) as usize) as usize,
        },
        ..v
    }
}

/// Whether the text has a character boundary after its first `n` bytes.
pub open spec fn byte_prefix_ok(s: Seq<char>, n: int) -> bool {
    is_char_boundary(encode_utf8(s), n)
}

/// The characters of the first `n` bytes of the text.
pub open spec fn byte_prefix(s: Seq<char>, n: int) -> Seq<char> {
    decode_utf8(encode_utf8(s).subrange(0, n))
}

/// Whether a conversation can be labelled: one without a name shows the
/// first eight bytes of its address hex.
pub open spec fn labelable(c: ConversationModel) -> bool {
    c.peer_name.len() > 0 || byte_prefix_ok(c.peer_hex, 8)
}

/// The row of a conversation: its peer's name (else the start of its
/// address), a `*` when it has unread messages, and a preview of the last
/// message (its content, else its title) cut to `preview_chars`.
pub open spec fn conversation_label(c: ConversationModel, preview_chars: nat) -> Seq<char> {
    let who = if c.peer_name.len() == 0 {
        byte_prefix(c.peer_hex, 8)
    } else {
        c.peer_name
    };
    let marker = if c.unread > 0 {
        " *"@
    } else {
        ""@
    };
    let preview = if c.last_content.len() == 0 {
        c.last_title
    } else {
        c.last_content
    };
    who + marker + " "@ + truncated(preview, preview_chars)
}

/// The rows of the conversations matching the filter.
pub open spec fn chat_list_labels(s: ChatListView, cs: Seq<Conversation>, width: i32) -> Seq<Seq<char>> {
    let m = matching_conversations(cs, s.filter, cs.len() as int);
    Seq::new(
        m.len(),
        |k: int| conversation_label(cs[m[k] as int]@, cells_fit((width - 30) as i32, CHAR_W)),
    )
}

/// How many conversation rows are drawn: those that fit below the
/// "+ New message" row (which counts as a row while not filtering).
pub open spec fn chat_list_shown(s: ChatListView, cs: Seq<Conversation>, height: i32) -> nat {
    let r = chat_list_rendered(s, cs, height);
    let m = matching_conversations(cs, s.filter, cs.len() as int);
    let has_new: int = if s.filter.len() == 0 {
        1
    } else {
        0
    };
    shown_count(m.len() as int, r.state.scroll as int, chat_list_visible(s.filter, height) - has_new)
}

/// Whether every conversation row that is drawn can be labelled.
pub open spec fn chat_list_drawable(s: ChatListView, cs: Seq<Conversation>, height: i32) -> bool {
    let r = chat_list_rendered(s, cs, height);
    let m = matching_conversations(cs, s.filter, cs.len() as int);
    forall|k: int|
        r.state.scroll <= k < r.state.scroll + chat_list_shown(s, cs, height) ==> labelable(
            #[trigger] cs[m[k] as int]@,
        )
}

/// What the conversation list draws (from the list state `s` before the
/// frame): the header with the number of matches; the search line while
/// filtering; the "+ New message" row while not filtering and scrolled to
/// the top; "No matches." when a filter matches nothing; the conversation
/// rows that fit (the selected row highlighted); the footer hint; and the
/// scrollbar.
pub open spec fn chat_list_scene(
    s: ChatListView,
    cs: Seq<Conversation>,
    n: NetworkState,
    width: i32,
    height: i32,
    t: Theme,
) -> Seq<Op> {
    let r = chat_list_rendered(s, cs, height);
    let m = matching_conversations(cs, s.filter, cs.len() as int);
    let has_new = s.filter.len() == 0;
    let body_top = chat_list_body_top(s.filter);
    let search = if has_new {
        Seq::empty()
    } else {
        seq![text_op(0, LINE_H, "> "@ + s.filter, t.accent)]
    };
    let new_row = if has_new && r.state.scroll == 0 {
        row_ops(0, LINE_H, ChatListScreen::label_spec(), width, r.state.selected == 0, t.ok, t)
    } else {
        Seq::empty()
    };
    let rows_top = body_top + if has_new && r.state.scroll == 0 {
        LINE_H as int
    } else {
        0
    };
    let none = if m.len() == 0 && !has_new {
        seq![text_op(0, body_top as i32, "No matches."@, t.text_dim)]
    } else {
        Seq::empty()
    };
    let hint = if has_new {
        "TYPE to search | ENTER open | ALT+Backspace"@
    } else {
        "filtering | ENTER open | ALT+Backspace"@
    };
    header_ops(width, "Chat"@, decimal(m.len()) + " conv"@, n, t) + search + new_row + none
        + list_rows(
        chat_list_labels(s, cs, width),
        r.state.scroll as int,
        chat_list_shown(s, cs, height),
        rows_top,
        width,
        r.state.selected - if has_new {
            1int
        } else {
            0int
        },
        t.text,
        t,
    ) + bar_ops(0, (height - LINE_H) as i32, px(width), LINE_H as u32, hint, ""@, t.surface, t.text_dim, t.border)
        + scrollbar_ops(
        0,
        body_top as i32,
        px(width),
        px((height - body_top) as i32),
        r.state.scroll,
        r.item_count,
        t.border,
    )
}

/// The row label of a conversation (see [`conversation_label`]).
fn label_of(c: &Conversation, preview_chars: usize) -> (r: String)
    requires
        labelable(c@),
    ensures
        r@ == conversation_label(c@, preview_chars as nat),
{
    let who: &str = if c.peer_name.as_str().unicode_len() == 0 {
        let (head, _) = c.peer_hex.as_str().split_at(8);
        proof {
            vstd::utf8::encode_utf8_decode_utf8(head@);
        }
        head
    } else {
        c.peer_name.as_str()
    };
    let marker = if c.unread > 0 {
        " *"
    } else {
        ""
    };
    let preview = if c.last_content.as_str().unicode_len() == 0 {
        c.last_title.as_str()
    } else {
        c.last_content.as_str()
    };
    let preview = truncate(preview, preview_chars);
    let a = concat(who, marker);
    let b = concat(a.as_str(), " ");
    concat(b.as_str(), preview.as_str())
}

impl ChatListScreen {
    /// The list's selection and scroll.
    pub fn state(&self) -> (r: ListState)
        ensures
            r == self@.state,
    {
        self.state
    }

    /// Whether [`ChatListScreen::render`] can label every conversation row
    /// it would draw (see [`chat_list_drawable`]).
    pub fn drawable(&self, cs: &[Conversation], height: i32) -> (r: bool)
        requires
            cs@.len() < usize::MAX,
            0 <= height <= EXTENT_MAX,
        ensures
            r == chat_list_drawable(self@, cs@, height),
    {
        let ghost s0 = self@;
        let m = filter_conversations(cs, self.filter.as_str());
        proof {
            lemma_matching_len(cs@, s0.filter, cs@.len() as int);
        }
        let filtering = self.filter.as_str().unicode_len() != 0;
        let has_new: usize = if filtering {
            0
        } else {
            1
        };
        let count = m.len() + has_new;
        let mut st = self.state;
        st.clamp(count);
        let body_top: i32 = if filtering {
            2 * LINE_H
        } else {
            LINE_H
        };
        let visible = crate::widgets::lines_fit(height - body_top - LINE_H, LINE_H);
        st.keep_visible(visible);
        let ghost r = chat_list_rendered(s0, cs@, height);
        assert(st == r.state);
        let first = st.scroll;
        let n = m.len();
        let shown: usize = if first >= n {
            0
        } else if n - first < visible - has_new {
            n - first
        } else {
            visible - has_new
        };
        assert(shown as nat == chat_list_shown(s0, cs@, height));
        assert forall|k: int| 0 <= k < n implies (#[trigger] m@[k]) < cs@.len() by {
            lemma_matching_in_range(cs@, s0.filter, cs@.len() as int, k);
        }
        let mut k: usize = first;
        while k < first + shown
            invariant
                first <= k <= first + shown,
                first + shown <= n || shown == 0,
                first == chat_list_rendered(s0, cs@, height).state.scroll,
                shown as nat == chat_list_shown(s0, cs@, height),
                s0 == self@,
                n == m@.len(),
                m@ == matching_conversations(cs@, s0.filter, cs@.len() as int),
                forall|j: int| 0 <= j < n ==> (#[trigger] m@[j]) < cs@.len(),
                forall|j: int| first <= j < k ==> labelable(#[trigger] cs@[m@[j] as int]@),
            decreases first + shown - k,
        {
            let c = &cs[m[k]];
            let named = c.peer_name.as_str().unicode_len() != 0;
            let hex = c.peer_hex.as_str();
            if !named && !hex.is_char_boundary(8) {
                assert(!labelable(cs@[m@[k as int] as int]@));
                return false;
            }
            k += 1;
        }
        true
    }

    /// The label of the "+ New message" row.
    pub open spec fn label_spec() -> Seq<char> {
        "+ New message"@
    }

    /// Draw the conversation list into a `width`×`height` frame: first
    /// [`ChatListScreen::sync`] against the conversations, then scroll so
    /// that the selection is visible.
    pub fn render(&mut self, ctx: &ViewContext, width: i32, height: i32, theme: &Theme) -> (ops: Vec<DrawOp>)
        requires
            theme.wf(),
            0 <= width <= EXTENT_MAX,
            0 <= height <= EXTENT_MAX,
            ctx.conversations@.len() < usize::MAX,
            chat_list_drawable(old(self)@, ctx.conversations@, height),
        ensures
            final(self)@ == chat_list_rendered(old(self)@, ctx.conversations@, height),
            ops_view(ops@) == chat_list_scene(
                old(self)@,
                ctx.conversations@,
                ctx.network,
                width,
                height,
                *theme,
            ),
    {
        let ghost s0 = self@;
        let ghost cs = ctx.conversations@;
        let filtered = self.sync(ctx.conversations);
        assert(self@ == chat_list_synced(s0, cs));
        let n = filtered.len();
        let mut ops: Vec<DrawOp> = Vec::new();
        let count_text = u64_to_string(n as u64);
        let count = concat(count_text.as_str(), " conv");
        draw_header(&mut ops, width, "Chat", count.as_str(), &ctx.network, theme);

        let header_h = theme.line_h;
        let filtering = self.filter.as_str().unicode_len() != 0;
        let search_h = if filtering {
            theme.line_h
        } else {
            0
        };
        let body_top = header_h + search_h;
        let visible = theme.lines_fit(height - body_top - theme.line_h);
        self.state.keep_visible(visible);
        assert(self@ == chat_list_rendered(s0, cs, height));

        // Live search line.
        let mut row_y = header_h;
        if filtering {
            let label = concat("> ", self.filter.as_str());
            draw_text(&mut ops, 0, header_h, label.as_str(), theme.accent);
            row_y = body_top;
        }
        if !filtering {
            // "New message" row.
            if self.state.scroll == 0 {
                draw_row(
                    &mut ops,
                    0,
                    row_y,
                    ChatListScreen::new_label(),
                    width,
                    self.state.selected == 0,
                    theme.ok,
                    theme,
                );
                row_y = row_y + theme.line_h;
            }
        }
        if n == 0 && filtering {
            draw_text(&mut ops, 0, row_y, "No matches.", theme.text_dim);
        }
        let ghost head = ops_view(ops@);
        let preview_chars = theme.chars_per_line(width - 30);
        let has_new: usize = if filtering {
            0
        } else {
            1
        };
        let scroll = self.state.scroll;
        let selected = self.state.selected;
        let ghost labels = chat_list_labels(s0, cs, width);
        let ghost rows_top = row_y as int;
        assert forall|k: int| 0 <= k < n implies (#[trigger] filtered@[k]) < cs.len() by {
            lemma_matching_in_range(cs, s0.filter, cs.len() as int, k);
        }
        let mut i: usize = scroll;
        while i < n && i - scroll < visible - has_new
            invariant
                scroll <= i,
                i <= n || i == scroll,
                i - scroll <= visible - has_new,
                visible >= 1,
                has_new <= 1,
                theme.wf(),
                0 <= width <= EXTENT_MAX,
                0 <= rows_top <= 3 * LINE_H,
                row_y == rows_top + (i - scroll) * LINE_H,
                (i - scroll) <= visible,
                visible as nat == chat_list_visible(s0.filter, height),
                0 <= height <= EXTENT_MAX,
                filtered@ == matching_conversations(cs, s0.filter, cs.len() as int),
                n == filtered@.len(),
                cs == ctx.conversations@,
                labels == chat_list_labels(s0, cs, width),
                preview_chars as nat == cells_fit((width - 30) as i32, CHAR_W),
                scroll == chat_list_rendered(s0, cs, height).state.scroll,
                has_new == (if s0.filter.len() == 0 { 1int } else { 0int }),
                chat_list_drawable(s0, cs, height),
                forall|k: int| 0 <= k < n ==> (#[trigger] filtered@[k]) < cs.len(),
                ops_view(ops@) == head + list_rows(
                    labels,
                    scroll as int,
                    (i - scroll) as nat,
                    rows_top,
                    width,
                    selected - has_new,
                    theme.text,
                    *theme,
                ),
            decreases n - i,
        {
            let conv = &ctx.conversations[filtered[i]];
            assert(labelable(cs[filtered@[i as int] as int]@));
            let line = label_of(conv, preview_chars);
            assert(line@ == labels[i as int]);
            let is_sel = i + has_new == selected;
            draw_row(&mut ops, 0, row_y, line.as_str(), width, is_sel, theme.text, theme);
            row_y = row_y + theme.line_h;
            i += 1;
        }
        assert((i - scroll) as nat == chat_list_shown(s0, cs, height));
        let hint = if filtering {
            "filtering | ENTER open | ALT+Backspace"
        } else {
            "TYPE to search | ENTER open | ALT+Backspace"
        };
        draw_bar(
            &mut ops,
            0,
            height - theme.line_h,
            px_of(width),
            px_of(theme.line_h),
            hint,
            "",
            theme.surface,
            theme.text_dim,
            theme,
        );
        draw_scrollbar(
            &mut ops,
            0,
            body_top,
            px_of(width),
            px_of(height - body_top),
            self.state.scroll,
            self.item_count,
            theme,
        );
        assert(ops_view(ops@) =~= chat_list_scene(s0, cs, ctx.network, width, height, *theme));
        ops
    }

    /// Label of the top row that starts a new conversation.
    pub fn new_label() -> (r: &'static str)
        ensures
            r@ == Self::label_spec(),
    {
        "+ New message"
    }

    pub fn new() -> (r: Self)
        ensures
            r@ == (ChatListView {
                state: ListState { selected: 0, scroll: 0 },
                selected_peer: None,
                item_count: 1,
                filter: Seq::empty(),
            }),
    {
        ChatListScreen {
            state: ListState { selected: 0, scroll: 0 },
            selected_peer: None,
            item_count: 1,
            filter: String::new(),
        }
    }

    /// The live search filter.
    pub fn filter(&self) -> (r: &str)
        ensures
            r@ == self@.filter,
    {
        self.filter.as_str()
    }

    /// Total rows known when last synced.
    pub fn item_count(&self) -> (r: usize)
        ensures
            r == self@.item_count,
    {
        self.item_count
    }

    /// Whether `key` can be taken without overflowing the selection.
    pub fn accepts(&self, key: KeyCode) -> (r: bool)
        ensures
            r == chat_list_key_ok(self@, key),
    {
        match key {
            KeyCode::Down => self.item_count == 0 || self.state.selected < usize::MAX,
            _ => true,
        }
    }

    /// Typing edits the filter; Up/Down move; Enter opens the selection
    /// (the "+ New message" row opens the new-chat screen); Esc goes back.
    pub fn handle_key(&mut self, key: KeyCode) -> (r: Command)
        requires
            chat_list_key_ok(old(self)@, key),
        ensures
            (final(self)@, r) == chat_list_key(old(self)@, key),
    {
        match key {
            KeyCode::Char(c) => {
                if 0x21 <= (c as u32) && (c as u32) <= 0x7e {
                    string_push(&mut self.filter, c);
                    self.state.selected = 0;
                    self.state.scroll = 0;
                    return Command::NoOp;
                }
            },
            KeyCode::Space => {
                string_push(&mut self.filter, ' ');
                self.state.selected = 0;
                self.state.scroll = 0;
                return Command::NoOp;
            },
            KeyCode::Backspace => {
                string_pop(&mut self.filter);
                self.state.selected = 0;
                self.state.scroll = 0;
                return Command::NoOp;
            },
            _ => {},
        }
        match key {
            KeyCode::Up => {
                self.state.move_up();
                Command::NoOp
            },
            KeyCode::Down => {
                self.state.move_down(self.item_count);
                Command::NoOp
            },
            KeyCode::Enter => {
                if !self.filter.as_str().is_empty() {
                    return match self.selected_peer {
                        Some(peer) => Command::StartChat(peer),
                        None => Command::NoOp,
                    };
                }
                if self.state.selected == 0 {
                    Command::ShowScreen(ScreenId::NewChat)
                } else {
                    match self.selected_peer {
                        Some(peer) => Command::StartChat(peer),
                        None => Command::NoOp,
                    }
                }
            },
            KeyCode::Esc => Command::Back,
            _ => Command::NoOp,
        }
    }

    /// Resolve the list against the current conversations: filter them,
    /// count the rows, remember the selected conversation's peer and clamp
    /// the selection. Returns the indices of the shown conversations.
    pub fn sync(&mut self, conversations: &[Conversation]) -> (r: Vec<usize>)
        requires
            conversations@.len() < usize::MAX,
        ensures
            r@ == matching_conversations(
                conversations@,
                old(self)@.filter,
                conversations@.len() as int,
            ),
            final(self)@.filter == old(self)@.filter,
            final(self)@.item_count == r@.len() + if old(self)@.filter.len() == 0 {
                1int
            } else {
                0int
            },
            final(self)@.state == clamped(old(self)@.state, final(self)@.item_count),
            ({
                let idx: int = if old(self)@.filter.len() == 0 {
                    dec_sat(final(self)@.state.selected) as int
                } else {
                    final(self)@.state.selected as int
                };
                final(self)@.selected_peer == if idx < r@.len() {
                    Some(conversations@[r@[idx] as int].peer)
                } else {
                    None::<[u8; 16]>
                }
            }),
    {
        let filtered = filter_conversations(conversations, self.filter.as_str());
        proof {
            lemma_matching_len(conversations@, self.filter@, conversations@.len() as int);
        }
        let has_new_row = self.filter.as_str().is_empty();
        self.item_count = filtered.len() + if has_new_row {
            1
        } else {
            0
        };
        self.state.clamp(self.item_count);
        let selected_idx = if has_new_row {
            if self.state.selected == 0 {
                0
            } else {
                self.state.selected - 1
            }
        } else {
            self.state.selected
        };
        self.selected_peer = if selected_idx < filtered.len() {
            proof {
                lemma_matching_in_range(
                    conversations@,
                    self.filter@,
                    conversations@.len() as int,
                    selected_idx as int,
                );
            }
            Some(conversations[filtered[selected_idx]].peer)
        } else {
            None
        };
        filtered
    }
}

/// The matching indices are no more than the conversations.
pub proof fn lemma_matching_len(cs: Seq<Conversation>, filter: Seq<char>, n: int)
    requires
        0 <= n,
    ensures
        matching_conversations(cs, filter, n).len() <= n,
    decreases n,
{
    if n > 0 {
        lemma_matching_len(cs, filter, n - 1);
    }
}

/// Each matching index lies below `n`.
pub proof fn lemma_matching_in_range(cs: Seq<Conversation>, filter: Seq<char>, n: int, k: int)
    requires
        0 <= n <= usize::MAX,
        0 <= k < matching_conversations(cs, filter, n).len(),
    ensures
        matching_conversations(cs, filter, n)[k] < n,
    decreases n,
{
    if n > 0 {
        let prev = matching_conversations(cs, filter, n - 1);
        if k < prev.len() {
            lemma_matching_in_range(cs, filter, n - 1, k);
        }
    }
}

} // verus!
