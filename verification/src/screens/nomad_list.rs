//! NomadNet node list screen.

use vstd::prelude::*;

use crate::command::Command;
use crate::context::NodeEntry;
use crate::input::KeyCode;
use crate::screens::chat::drop_last_char;
use crate::screens::chat_list::reset;
use crate::screens::filter::{is_ascii_graphic, matching_nodes, filter_nodes};
use crate::screens::list::{ListState, dec_sat, moved_down, clamped};
use crate::text::{string_push, string_pop, concat, decimal, u64_to_string};
use crate::context::{NetworkState, NodeModel, ViewContext};
use crate::scene::{DrawOp, Op, ops_view};
use crate::screens::chat_list::{chat_list_body_top, chat_list_visible};
use crate::screens::list::visible_scroll;
use crate::theme::{Theme, CHAR_W, LINE_H};
use crate::widgets::{
    EXTENT_MAX, bar_ops, cells_fit, draw_bar, draw_header, draw_row, draw_scrollbar, draw_text,
    header_ops, list_rows, px, px_of, scrollbar_ops, shown_count, text_op, truncate, truncated,
};

verus! {

/// The list of discovered NomadNet nodes.
#[derive(Debug, Default)]
pub struct NomadListScreen {
    state: ListState,
    /// Address of the currently selected node, resolved when synced.
    selected: Option<[u8; 16]>,
    /// Number of nodes shown when synced.
    count: usize,
    /// Live search filter: matches the node's name or address. Empty = no
    /// filtering. Typing on this screen edits it.
    filter: String,
}

/// Abstract value of a [`NomadListScreen`].
pub struct NomadListView {
    pub state: ListState,
    pub selected: Option<[u8; 16]>,
    pub count: usize,
    pub filter: Seq<char>,
}

impl View for NomadListScreen {
    type V = NomadListView;

    closed spec fn view(&self) -> NomadListView {
        NomadListView {
            state: self.state,
            selected: self.selected,
            count: self.count,
            filter: self.filter@,
        }
    }
}


/// The node list's state and command after `key`.
pub open spec fn nomad_list_key(s: NomadListView, key: KeyCode) -> (NomadListView, Command) {
    match key {
        KeyCode::Char(c) if is_ascii_graphic(c) => (
            NomadListView { filter: s.filter.push(c), state: reset(s.state), ..s },
            Command::NoOp,
        ),
        KeyCode::Space => (
            NomadListView { filter: s.filter.push(' '), state: reset(s.state), ..s },
            Command::NoOp,
        ),
        KeyCode::Backspace => (
            NomadListView { filter: drop_last_char(s.filter), state: reset(s.state), ..s },
            Command::NoOp,
        ),
        KeyCode::Up => (
            NomadListView {
                state: ListState { selected: dec_sat(s.state.selected), ..s.state },
                ..s
            },
            Command::NoOp,
        ),
        KeyCode::Down => (
            NomadListView {
                state: ListState { selected: moved_down(s.state.selected, s.count), ..s.state },
                ..s
            },
            Command::NoOp,
        ),
        KeyCode::Enter => (
            s,
            match s.selected {
                Some(node) => Command::OpenNode(node),
                None => Command::NoOp,
            },
        ),
        KeyCode::Esc => (s, Command::Back),
        _ => (s, Command::NoOp),
    }
}

/// Whether the node list can take `key` without overflowing.
pub open spec fn nomad_list_key_ok(s: NomadListView, key: KeyCode) -> bool {
    key == KeyCode::Down && s.count > 0 ==> s.state.selected < usize::MAX
}

impl NomadListScreen {
    /// The list's selection and scroll.
    pub fn state(&self) -> (r: ListState)
        ensures
            r == self@.state,
    {
        self.state
    }

    pub fn new() -> (r: Self)
        ensures
            r@ == (NomadListView {
                state: ListState { selected: 0, scroll: 0 },
                selected: None,
                count: 0,
                filter: Seq::empty(),
            }),
    {
        NomadListScreen {
            state: ListState { selected: 0, scroll: 0 },
            selected: None,
            count: 0,
            filter: String::new(),
        }
    }

    /// The live search filter.
    pub fn filter(&self) -> (r: &str)
        ensures
            r@ == self@.filter,
    {
        self.filter.as_str()
    }

    /// Number of nodes shown when last synced.
    pub fn count(&self) -> (r: usize)
        ensures
            r == self@.count,
    {
        self.count
    }

    /// Whether `key` can be taken without overflowing the selection.
    pub fn accepts(&self, key: KeyCode) -> (r: bool)
        ensures
            r == nomad_list_key_ok(self@, key),
    {
        match key {
            KeyCode::Down => self.count == 0 || self.state.selected < usize::MAX,
            _ => true,
        }
    }

    /// Typing edits the filter; Up/Down move; Enter opens the selected node;
    /// Esc goes back.
    pub fn handle_key(&mut self, key: KeyCode) -> (r: Command)
        requires
            nomad_list_key_ok(old(self)@, key),
        ensures
            (final(self)@, r) == nomad_list_key(old(self)@, key),
    {
        match key {
            KeyCode::Char(c) => {
                if 0x21 <= (c as u32) && (c as u32) <= 0x7e {
                    string_push(&mut self.filter, c);
                    self.state.selected = 0;
                    self.state.scroll = 0;
                    return Command::NoOp;
                }
            },
            KeyCode::Space => {
                string_push(&mut self.filter, ' ');
                self.state.selected = 0;
                self.state.scroll = 0;
                return Command::NoOp;
            },
            KeyCode::Backspace => {
                string_pop(&mut self.filter);
                self.state.selected = 0;
                self.state.scroll = 0;
                return Command::NoOp;
            },
            _ => {},
        }
        match key {
            KeyCode::Up => {
                self.state.move_up();
                Command::NoOp
            },
            KeyCode::Down => {
                self.state.move_down(self.count);
                Command::NoOp
            },
            KeyCode::Enter => match self.selected {
                Some(node) => Command::OpenNode(node),
                None => Command::NoOp,
            },
            KeyCode::Esc => Command::Back,
            _ => Command::NoOp,
        }
    }

    /// Resolve the list against the discovered nodes: filter them, count
    /// them, remember the selected node and clamp the selection. Returns the
    /// indices of the shown nodes.
    pub fn sync(&mut self, nodes: &[NodeEntry]) -> (r: Vec<usize>)
        ensures
            r@ == matching_nodes(nodes@, old(self)@.filter, nodes@.len() as int),
            final(self)@.filter == old(self)@.filter,
            final(self)@.count == r@.len(),
            final(self)@.selected == if old(self)@.state.selected < r@.len() {
                Some(nodes@[r@[old(self)@.state.selected as int] as int].address)
            } else {
                None::<[u8; 16]>
            },
            final(self)@.state == clamped(old(self)@.state, r@.len() as usize),
    {
        let filtered = filter_nodes(nodes, self.filter.as_str());
        let _total = nodes.len();
        self.count = filtered.len();
        self.selected = if self.state.selected < filtered.len() {
            proof {
                lemma_matching_nodes_in_range(
                    nodes@,
                    self.filter@,
                    nodes@.len() as int,
                    self.state.selected as int,
                );
            }
            Some(nodes[filtered[self.state.selected]].address)
        } else {
            None
        };
        self.state.clamp(self.count);
        filtered
    }
}

/// The list after [`NomadListScreen::sync`] against `ns`.
pub open spec fn nomad_list_synced(s: NomadListView, ns: Seq<NodeEntry>) -> NomadListView {
    let m = matching_nodes(ns, s.filter, ns.len() as int);
    NomadListView {
        state: clamped(s.state, m.len() as usize),
        selected: if s.state.selected < m.len() {
            Some(ns[m[s.state.selected as int] as int].address)
        } else {
            None
        },
        count: m.len() as usize,
        filter: s.filter,
    }
}

/// The list after [`NomadListScreen::render`]: synced, then scrolled so that
/// the selection is visible.
pub open spec fn nomad_list_rendered(s: NomadListView, ns: Seq<NodeEntry>, height: i32) -> NomadListView {
    let v = nomad_list_synced(s, ns);
    NomadListView {
        state: ListState {
            selected: v.state.selected,
            scroll: visible_scroll(v.state, chat_list_visible(s.filter, height) as usize) as usize,
        },
        ..v
    }
}

/// The row of a node: its name, else its address hex, cut to `max` chars.
pub open spec fn node_label(n: NodeModel, max: nat) -> Seq<char> {
    truncated(
        if n.name.len() == 0 {
            n.hex
        } else {
            n.name
        },
        max,
    )
}

/// The rows of the nodes matching the filter.
pub open spec fn nomad_list_labels(s: NomadListView, ns: Seq<NodeEntry>, width: i32) -> Seq<Seq<char>> {
    let m = matching_nodes(ns, s.filter, ns.len() as int);
    Seq::new(m.len(), |k: int| node_label(ns[m[k] as int]@, cells_fit((width - 6) as i32, CHAR_W)))
}

/// What the node list draws (from the list state `s` before the frame): the
/// header with the number of matches; the search line while filtering; a
/// notice when nothing is listed (no node discovered, or no match); else the
/// node rows that fit from the first visible one (the selected one
/// highlighted); the footer hint; and the scrollbar.
pub open spec fn nomad_list_scene(
    s: NomadListView,
    ns: Seq<NodeEntry>,
    n: NetworkState,
    width: i32,
    height: i32,
    t: Theme,
) -> Seq<Op> {
    let r = nomad_list_rendered(s, ns, height);
    let m = matching_nodes(ns, s.filter, ns.len() as int);
    let filtering = s.filter.len() != 0;
    let body_top = chat_list_body_top(s.filter);
    let search = if filtering {
        seq![text_op(0, LINE_H, "> "@ + s.filter, t.accent)]
    } else {
        Seq::empty()
    };
    let body = if m.len() == 0 {
        if filtering {
            seq![text_op(0, body_top as i32, "No matches."@, t.text_dim)]
        } else {
            seq![
                text_op(0, body_top as i32, "No nodes discovered yet."@, t.text_dim),
                text_op(0, (body_top + LINE_H) as i32, "Make sure the mesh is within reach."@, t.text_dim),
            ]
        }
    } else {
        list_rows(
            nomad_list_labels(s, ns, width),
            r.state.scroll as int,
            shown_count(m.len() as int, r.state.scroll as int, chat_list_visible(s.filter, height) as int),
            body_top,
            width,
            r.state.selected as int,
            t.text,
            t,
        )
    };
    let hint = if filtering {
        "filtering | ENTER browse | ESC back"@
    } else {
        "TYPE to search | ENTER browse | ESC back"@
    };
    header_ops(width, "NomadNet"@, decimal(m.len()) + " nodes"@, n, t) + search + body + bar_ops(
        0,
        (height - LINE_H) as i32,
        px(width),
        LINE_H as u32,
        hint,
        ""@,
        t.surface,
        t.text_dim,
        t.border,
    ) + scrollbar_ops(
        0,
        body_top as i32,
        px(width),
        px((height - body_top) as i32),
        r.state.scroll,
        r.count,
        t.border,
    )
}

impl NomadListScreen {
    /// Draw the node list into a `width`×`height` frame: first
    /// [`NomadListScreen::sync`] against the nodes, then scroll so that the
    /// selection is visible.
    pub fn render(&mut self, ctx: &ViewContext, width: i32, height: i32, theme: &Theme) -> (ops: Vec<DrawOp>)
        requires
            theme.wf(),
            0 <= width <= EXTENT_MAX,
            0 <= height <= EXTENT_MAX,
        ensures
            final(self)@ == nomad_list_rendered(old(self)@, ctx.nodes@, height),
            ops_view(ops@) == nomad_list_scene(old(self)@, ctx.nodes@, ctx.network, width, height, *theme),
    {
        let ghost s0 = self@;
        let ghost ns = ctx.nodes@;
        let filtered = self.sync(ctx.nodes);
        assert(self@ == nomad_list_synced(s0, ns));
        let n = filtered.len();
        let mut ops: Vec<DrawOp> = Vec::new();
        let count_text = u64_to_string(n as u64);
        let count_label = concat(count_text.as_str(), " nodes");
        draw_header(&mut ops, width, "NomadNet", count_label.as_str(), &ctx.network, theme);
        let header_h = theme.line_h;
        let filtering = self.filter.as_str().unicode_len() != 0;
        let search_h = if filtering {
            theme.line_h
        } else {
            0
        };
        let body_top = header_h + search_h;
        let visible = theme.lines_fit(height - body_top - theme.line_h);
        self.state.keep_visible(visible);
        assert(self@ == nomad_list_rendered(s0, ns, height));

        // Live search line.
        let mut y = header_h;
        if filtering {
            let label = concat("> ", self.filter.as_str());
            draw_text(&mut ops, 0, header_h, label.as_str(), theme.accent);
            y = body_top;
        }
        let ghost head = ops_view(ops@);
        if n == 0 {
            if !filtering {
                draw_text(&mut ops, 0, y, "No nodes discovered yet.", theme.text_dim);
                draw_text(&mut ops, 0, y + theme.line_h, "Make sure the mesh is within reach.", theme.text_dim);
            } else {
                draw_text(&mut ops, 0, y, "No matches.", theme.text_dim);
            }
        } else {
            let max = theme.chars_per_line(width - 6);
            let scroll = self.state.scroll;
            let selected = self.state.selected;
            let ghost labels = nomad_list_labels(s0, ns, width);
            let ghost rows_top = y as int;
            let total = ctx.nodes.len();
            assert forall|k: int| 0 <= k < n implies (#[trigger] filtered@[k]) < ns.len() by {
                assert(total == ns.len());
                lemma_matching_nodes_in_range(ns, s0.filter, ns.len() as int, k);
            }
            let mut i: usize = scroll;
            while i < n && i - scroll < visible
                invariant
                    scroll <= i,
                    i <= n || i == scroll,
                    i - scroll <= visible,
                    theme.wf(),
                    0 <= width <= EXTENT_MAX,
                    0 <= rows_top <= 2 * LINE_H,
                    y == rows_top + (i - scroll) * LINE_H,
                    visible as nat == chat_list_visible(s0.filter, height),
                    0 <= height <= EXTENT_MAX,
                    filtered@ == matching_nodes(ns, s0.filter, ns.len() as int),
                    n == filtered@.len(),
                    ns == ctx.nodes@,
                    labels == nomad_list_labels(s0, ns, width),
                    max as nat == cells_fit((width - 6) as i32, CHAR_W),
                    forall|k: int| 0 <= k < n ==> (#[trigger] filtered@[k]) < ns.len(),
                    ops_view(ops@) == head + list_rows(
                        labels,
                        scroll as int,
                        (i - scroll) as nat,
                        rows_top,
                        width,
                        selected as int,
                        theme.text,
                        *theme,
                    ),
                decreases n - i,
            {
                let node = &ctx.nodes[filtered[i]];
                let shown = if node.name.as_str().unicode_len() == 0 {
                    node.hex.as_str()
                } else {
                    node.name.as_str()
                };
                let label = truncate(shown, max);
                assert(label@ == labels[i as int]);
                draw_row(&mut ops, 0, y, label.as_str(), width, i == selected, theme.text, theme);
                y = y + theme.line_h;
                i += 1;
            }
            assert((i - scroll) as nat == shown_count(
                n as int,
                scroll as int,
                chat_list_visible(s0.filter, height) as int,
            ));
        }
        let hint = if filtering {
            "filtering | ENTER browse | ESC back"
        } else {
            "TYPE to search | ENTER browse | ESC back"
        };
        draw_bar(
            &mut ops,
            0,
            height - theme.line_h,
            px_of(width),
            px_of(theme.line_h),
            hint,
            "",
            theme.surface,
            theme.text_dim,
            theme,
        );
        draw_scrollbar(
            &mut ops,
            0,
            body_top,
            px_of(width),
            px_of(height - body_top),
            self.state.scroll,
            self.count,
            theme,
        );
        assert(ops_view(ops@) =~= nomad_list_scene(s0, ns, ctx.network, width, height, *theme));
        ops
    }
}

/// Each matching node index lies below `n`.
pub proof fn lemma_matching_nodes_in_range(ns: Seq<NodeEntry>, filter: Seq<char>, n: int, k: int)
    requires
        0 <= n <= usize::MAX,
        0 <= k < matching_nodes(ns, filter, n).len(),
    ensures
        matching_nodes(ns, filter, n)[k] < n,
    decreases n,
{
    if n > 0 {
        let prev = matching_nodes(ns, filter, n - 1);
        if k < prev.len() {
            lemma_matching_nodes_in_range(ns, filter, n - 1, k);
        }
    }
}

} // verus!
