//! Home / main menu screen.

use vstd::prelude::*;

use crate::command::{Command, ScreenId};
use crate::input::KeyCode;
use crate::context::ViewContext;
use crate::scene::{DrawOp, Op, ops_view};
use crate::screens::list::{ListState, dec_sat, moved_down, visible_scroll};
use crate::theme::{Theme, LINE_H};
use crate::widgets::{
    EXTENT_MAX, bar_ops, cells_fit, draw_bar, draw_row, list_rows, px, px_of, shown_count,
    truncate, truncated,
};

verus! {

/// Number of entries of the home menu ("LXMF Chat", "NomadNet", "Settings").
pub const HOME_ITEMS: usize = 3;

/// The main menu.
#[derive(Debug, Default)]
pub struct HomeScreen {
    pub state: ListState,
}

/// The command the home menu issues for `key` with `selected` highlighted.
pub open spec fn home_command(selected: usize, key: KeyCode) -> Command {
    match key {
        KeyCode::Enter => if selected == 0 {
            Command::ShowScreen(ScreenId::ChatList)
        } else if selected == 1 {
            Command::ShowScreen(ScreenId::NomadList)
        } else {
            Command::ShowScreen(ScreenId::Settings)
        },
        KeyCode::Esc => Command::Back,
        _ => Command::NoOp,
    }
}

/// The list state of a menu of `n` entries after `key`.
pub open spec fn menu_state(s: ListState, n: usize, key: KeyCode) -> ListState {
    match key {
        KeyCode::Up => ListState { selected: dec_sat(s.selected), ..s },
        KeyCode::Down => ListState { selected: moved_down(s.selected, n), ..s },
        _ => s,
    }
}

/// The list state of a menu of `n` entries after `k` presses of Down.
pub open spec fn menu_downs(s: ListState, n: usize, k: nat) -> ListState
    decreases k,
{
    if k == 0 {
        s
    } else {
        menu_state(menu_downs(s, n, (k - 1) as nat), n, KeyCode::Down)
    }
}

/// From the top of a menu of `n >= 1` entries, `k` presses of Down select
/// entry `k`, or the last entry when there are fewer.
pub proof fn lemma_menu_downs(n: usize, k: nat)
    requires
        n >= 1,
    ensures
        menu_downs(ListState { selected: 0, scroll: 0 }, n, k).selected == if k < n {
            k as int
        } else {
            n - 1
        },
        menu_downs(ListState { selected: 0, scroll: 0 }, n, k).scroll == 0,
    decreases k,
{
    if k > 0 {
        lemma_menu_downs(n, (k - 1) as nat);
    }
}

/// On a fresh home screen, Enter after `k` presses of Down opens the chat
/// list (k = 0), the NomadNet browser (k = 1) or the settings (k >= 2).
pub proof fn lemma_home_after_downs(k: nat)
    ensures
        home_command(menu_downs(ListState { selected: 0, scroll: 0 }, HOME_ITEMS, k).selected, KeyCode::Enter)
            == if k == 0 {
            Command::ShowScreen(ScreenId::ChatList)
        } else if k == 1 {
            Command::ShowScreen(ScreenId::NomadList)
        } else {
            Command::ShowScreen(ScreenId::Settings)
        },
{
    lemma_menu_downs(HOME_ITEMS, k);
}

/// The labels of the home menu, top to bottom.
pub open spec fn home_labels() -> Seq<Seq<char>> {
    seq!["LXMF Chat"@, "NomadNet"@, "Settings"@]
}

/// Rows of a menu that fit between a header and a footer bar.
pub open spec fn menu_visible(height: i32) -> nat {
    cells_fit((height - 2 * LINE_H) as i32, LINE_H)
}

/// What the home screen draws with list state `s`: a header bar with the
/// connection status, the menu rows that fit from the first visible one
/// (the selected one highlighted), and a footer with the start of our
/// address.
pub open spec fn home_scene(
    s: ListState,
    connected: bool,
    identity_hex: Seq<char>,
    width: i32,
    height: i32,
    t: Theme,
) -> Seq<Op> {
    bar_ops(
        0,
        0,
        px(width),
        LINE_H as u32,
        "RETICULA"@,
        if connected {
            "connected"@
        } else {
            "connecting..."@
        },
        t.header,
        t.header_text,
        t.border,
    ) + list_rows(
        home_labels(),
        s.scroll as int,
        shown_count(HOME_ITEMS as int, s.scroll as int, menu_visible(height) as int),
        LINE_H as int,
        width,
        s.selected as int,
        t.text,
        t,
    ) + bar_ops(
        0,
        (height - LINE_H) as i32,
        px(width),
        LINE_H as u32,
        "ESC back"@,
        truncated(identity_hex, 12),
        t.surface,
        t.text_dim,
        t.border,
    )
}

impl HomeScreen {
    /// The menu labels, top to bottom.
    pub fn items() -> (r: [&'static str; 3])
        ensures
            forall|i: int| 0 <= i < 3 ==> (#[trigger] r@[i])@ == home_labels()[i],
    {
        ["LXMF Chat", "NomadNet", "Settings"]
    }

    /// Draw the menu into a `width`×`height` frame, first scrolling so that
    /// the selection is visible.
    pub fn render(&mut self, ctx: &ViewContext, width: i32, height: i32, theme: &Theme) -> (ops: Vec<DrawOp>)
        requires
            theme.wf(),
            0 <= width <= EXTENT_MAX,
            0 <= height <= EXTENT_MAX,
        ensures
            final(self).state == (ListState {
                selected: old(self).state.selected,
                scroll: visible_scroll(old(self).state, menu_visible(height) as usize) as usize,
            }),
            ops_view(ops@) == home_scene(
                final(self).state,
                ctx.network.connected,
                ctx.identity_hex@,
                width,
                height,
                *theme,
            ),
    {
        let mut ops: Vec<DrawOp> = Vec::new();
        let status = if ctx.network.connected {
            "connected"
        } else {
            "connecting..."
        };
        draw_bar(
            &mut ops,
            0,
            0,
            px_of(width),
            px_of(theme.line_h),
            "RETICULA",
            status,
            theme.header,
            theme.header_text,
            theme,
        );
        let ghost head = ops_view(ops@);
        let body_top = theme.line_h;
        let mut y = body_top;
        let visible = theme.lines_fit(height - y - theme.line_h);
        self.state.keep_visible(visible);
        let items = HomeScreen::items();
        let scroll = self.state.scroll;
        let selected = self.state.selected;
        let mut i: usize = scroll;
        while i < HOME_ITEMS && i - scroll < visible
            invariant
                scroll <= i,
                i <= HOME_ITEMS || i == scroll,
                i - scroll <= visible,
                visible as nat == menu_visible(height),
                theme.wf(),
                0 <= width <= EXTENT_MAX,
                y == body_top + (i - scroll) * LINE_H,
                body_top == LINE_H,
                forall|k: int| 0 <= k < 3 ==> (#[trigger] items@[k])@ == home_labels()[k],
                ops_view(ops@) == head + list_rows(
                    home_labels(),
                    scroll as int,
                    (i - scroll) as nat,
                    LINE_H as int,
                    width,
                    selected as int,
                    theme.text,
                    *theme,
                ),
            decreases HOME_ITEMS - i,
        {
            let ghost before = ops_view(ops@);
            assert(items@[i as int]@ == home_labels()[i as int]);
            draw_row(&mut ops, 0, y, items[i], width, i == selected, theme.text, theme);
            y = y + theme.line_h;
            i += 1;
        }
        assert((i - scroll) as nat == shown_count(
            HOME_ITEMS as int,
            scroll as int,
            menu_visible(height) as int,
        ));
        let ghost rows = ops_view(ops@);
        let short = truncate(ctx.identity_hex, 12);
        draw_bar(
            &mut ops,
            0,
            height - theme.line_h,
            px_of(width),
            px_of(theme.line_h),
            "ESC back",
            short.as_str(),
            theme.surface,
            theme.text_dim,
            theme,
        );
        assert(ops_view(ops@) =~= home_scene(
            self.state,
            ctx.network.connected,
            ctx.identity_hex@,
            width,
            height,
            *theme,
        ));
        ops
    }

    pub fn new() -> (r: Self)
        ensures
            r.state == (ListState { selected: 0, scroll: 0 }),
    {
        HomeScreen { state: ListState { selected: 0, scroll: 0 } }
    }

    /// Move the selection with Up/Down, open the selected entry with Enter,
    /// go back with Esc.
    pub fn handle_key(&mut self, key: KeyCode) -> (r: Command)
        requires
            key == KeyCode::Down ==> old(self).state.selected < usize::MAX,
        ensures
            final(self).state == menu_state(old(self).state, HOME_ITEMS, key),
            r == home_command(old(self).state.selected, key),
    {
        match key {
            KeyCode::Up => {
                self.state.move_up();
                Command::NoOp
            },
            KeyCode::Down => {
                self.state.move_down(HOME_ITEMS);
                Command::NoOp
            },
            KeyCode::Enter => match self.state.selected {
                0 => Command::ShowScreen(ScreenId::ChatList),
                1 => Command::ShowScreen(ScreenId::NomadList),
                _ => Command::ShowScreen(ScreenId::Settings),
            },
            KeyCode::Esc => Command::Back,
            _ => Command::NoOp,
        }
    }
}

} // verus!
