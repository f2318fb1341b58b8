//! Settings menu: sub-menus for identity, WiFi and LoRa, plus re-announce.

use vstd::prelude::*;

use crate::command::{Command, ScreenId};
use crate::input::KeyCode;
use crate::screens::home::{lemma_menu_downs, menu_downs, menu_state};
use crate::context::{NetworkState, ViewContext};
use crate::scene::{DrawOp, Op, ops_view};
use crate::screens::list::ListState;
use crate::text::{concat, decimal, u64_to_string};
use crate::theme::{Theme, LINE_H};
use crate::widgets::{
    EXTENT_MAX, bar_ops, draw_bar, draw_header, draw_row, draw_text, header_ops, list_rows, px,
    px_of, text_op, truncate, truncated,
};

verus! {

/// Number of entries of the settings menu.
pub const SETTINGS_ITEMS: usize = 4;

/// The settings menu.
#[derive(Debug, Default)]
pub struct SettingsScreen {
    pub state: ListState,
}

/// The command the settings menu issues for `key` with `selected`
/// highlighted.
pub open spec fn settings_command(selected: usize, key: KeyCode) -> Command {
    match key {
        KeyCode::Enter => if selected == 0 {
            Command::ShowScreen(ScreenId::SettingsIdentity)
        } else if selected == 1 {
            Command::ShowScreen(ScreenId::SettingsWifi)
        } else if selected == 2 {
            Command::ShowScreen(ScreenId::SettingsLora)
        } else {
            Command::Announce
        },
        KeyCode::Esc => Command::Back,
        _ => Command::NoOp,
    }
}

/// On a fresh settings screen, Enter after `k` presses of Down opens the
/// identity (k = 0), WiFi (k = 1) or LoRa settings (k = 2), or announces
/// (k >= 3).
pub proof fn lemma_settings_after_downs(k: nat)
    ensures
        settings_command(
            menu_downs(ListState { selected: 0, scroll: 0 }, SETTINGS_ITEMS, k).selected,
            KeyCode::Enter,
        ) == if k == 0 {
            Command::ShowScreen(ScreenId::SettingsIdentity)
        } else if k == 1 {
            Command::ShowScreen(ScreenId::SettingsWifi)
        } else if k == 2 {
            Command::ShowScreen(ScreenId::SettingsLora)
        } else {
            Command::Announce
        },
{
    lemma_menu_downs(SETTINGS_ITEMS, k);
}

/// The entries of the settings menu, top to bottom.
pub open spec fn settings_items() -> Seq<Seq<char>> {
    seq!["Identity"@, "WiFi"@, "LoRa"@, "Re-announce identities"@]
}

/// The rows of the settings menu: each entry numbered from one.
pub open spec fn settings_labels() -> Seq<Seq<char>> {
    Seq::new(4, |i: int| decimal((i + 1) as nat) + ". "@ + settings_items()[i])
}

/// What the settings menu draws: the header, the numbered entries (the
/// selected one highlighted), then, after a blank line, the network status,
/// the number of open links, the uptime in whole seconds and any notice,
/// and a footer with the start of our address.
pub open spec fn settings_scene(
    selected: usize,
    n: NetworkState,
    notice: Seq<char>,
    identity_hex: Seq<char>,
    width: i32,
    height: i32,
    t: Theme,
) -> Seq<Op> {
    let info = seq![
        text_op(
            0,
            60,
            if n.connected {
                "Network: connected"@
            } else {
                "Network: connecting..."@
            },
            t.text_dim,
        ),
        text_op(0, 70, "Links: "@ + decimal(n.peer_links as nat), t.text_dim),
        text_op(0, 80, "Uptime: "@ + decimal((n.uptime_ms / 1000) as nat) + "s"@, t.text_dim),
    ];
    let notice_ops = if notice.len() == 0 {
        Seq::empty()
    } else {
        seq![text_op(0, 90, notice, t.ok)]
    };
    header_ops(width, "Settings"@, ""@, n, t) + list_rows(
        settings_labels(),
        0,
        4,
        LINE_H as int,
        width,
        selected as int,
        t.text,
        t,
    ) + info + notice_ops + bar_ops(
        0,
        (height - LINE_H) as i32,
        px(width),
        LINE_H as u32,
        "ALT+Backspace back"@,
        truncated(identity_hex, 12),
        t.surface,
        t.text_dim,
        t.border,
    )
}

impl SettingsScreen {
    /// The menu labels, top to bottom.
    pub fn items() -> (r: [&'static str; 4])
        ensures
            forall|i: int| 0 <= i < 4 ==> (#[trigger] r@[i])@ == settings_items()[i],
    {
        ["Identity", "WiFi", "LoRa", "Re-announce identities"]
    }

    /// Draw the menu and the network status into a `width`×`height` frame.
    pub fn render(&self, ctx: &ViewContext, width: i32, height: i32, theme: &Theme) -> (ops: Vec<DrawOp>)
        requires
            theme.wf(),
            0 <= width <= EXTENT_MAX,
            0 <= height <= EXTENT_MAX,
        ensures
            ops_view(ops@) == settings_scene(
                self.state.selected,
                ctx.network,
                ctx.notice@,
                ctx.identity_hex@,
                width,
                height,
                *theme,
            ),
    {
        let mut ops: Vec<DrawOp> = Vec::new();
        draw_header(&mut ops, width, "Settings", "", &ctx.network, theme);
        let ghost head = ops_view(ops@);
        let items = SettingsScreen::items();
        let mut y = theme.line_h;
        let mut i: usize = 0;
        while i < SETTINGS_ITEMS
            invariant
                i <= SETTINGS_ITEMS,
                theme.wf(),
                0 <= width <= EXTENT_MAX,
                y == LINE_H + i * LINE_H,
                forall|k: int| 0 <= k < 4 ==> (#[trigger] items@[k])@ == settings_items()[k],
                ops_view(ops@) == head + list_rows(
                    settings_labels(),
                    0,
                    i as nat,
                    LINE_H as int,
                    width,
                    self.state.selected as int,
                    theme.text,
                    *theme,
                ),
            decreases SETTINGS_ITEMS - i,
        {
            let number = u64_to_string((i + 1) as u64);
            let numbered = concat(number.as_str(), ". ");
            let label = concat(numbered.as_str(), items[i]);
            assert(label@ == settings_labels()[i as int]);
            draw_row(&mut ops, 0, y, label.as_str(), width, i == self.state.selected, theme.text, theme);
            y = y + theme.line_h;
            i += 1;
        }
        let ghost rows = ops_view(ops@);
        y = y + theme.line_h;

        // Static network info.
        let status = if ctx.network.connected {
            "Network: connected"
        } else {
            "Network: connecting..."
        };
        draw_text(&mut ops, 0, y, status, theme.text_dim);
        y = y + theme.line_h;
        let links = u64_to_string(ctx.network.peer_links as u64);
        let links_line = concat("Links: ", links.as_str());
        draw_text(&mut ops, 0, y, links_line.as_str(), theme.text_dim);
        y = y + theme.line_h;
        let secs = ctx.network.uptime_ms / 1000;
        let secs_text = u64_to_string(secs);
        let uptime = concat("Uptime: ", secs_text.as_str());
        let uptime_line = concat(uptime.as_str(), "s");
        draw_text(&mut ops, 0, y, uptime_line.as_str(), theme.text_dim);
        if ctx.notice.unicode_len() != 0 {
            y = y + theme.line_h;
            draw_text(&mut ops, 0, y, ctx.notice, theme.ok);
        }
        let short = truncate(ctx.identity_hex, 12);
        draw_bar(
            &mut ops,
            0,
            height - theme.line_h,
            px_of(width),
            px_of(theme.line_h),
            "ALT+Backspace back",
            short.as_str(),
            theme.surface,
            theme.text_dim,
            theme,
        );
        assert(ops_view(ops@) =~= settings_scene(
            self.state.selected,
            ctx.network,
            ctx.notice@,
            ctx.identity_hex@,
            width,
            height,
            *theme,
        ));
        ops
    }

    pub fn new() -> (r: Self)
        ensures
            r.state == (ListState { selected: 0, scroll: 0 }),
    {
        SettingsScreen { state: ListState { selected: 0, scroll: 0 } }
    }

    /// Move the selection with Up/Down, open the selected entry with Enter,
    /// go back with Esc.
    pub fn handle_key(&mut self, key: KeyCode) -> (r: Command)
        requires
            key == KeyCode::Down ==> old(self).state.selected < usize::MAX,
        ensures
            final(self).state == menu_state(old(self).state, SETTINGS_ITEMS, key),
            r == settings_command(old(self).state.selected, key),
    {
        match key {
            KeyCode::Up => {
                self.state.move_up();
                Command::NoOp
            },
            KeyCode::Down => {
                self.state.move_down(SETTINGS_ITEMS);
                Command::NoOp
            },
            KeyCode::Enter => match self.state.selected {
                0 => Command::ShowScreen(ScreenId::SettingsIdentity),
                1 => Command::ShowScreen(ScreenId::SettingsWifi),
                2 => Command::ShowScreen(ScreenId::SettingsLora),
                _ => Command::Announce,
            },
            KeyCode::Esc => Command::Back,
            _ => Command::NoOp,
        }
    }
}

} // verus!
