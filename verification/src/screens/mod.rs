//! Screens of the Reticula UI: per-screen state and key handling.

pub mod list;

pub use self::list::ListState;
pub mod home;
pub mod settings;
pub mod chat;
pub mod filter;
pub mod chat_list;
pub mod nomad_list;
pub mod new_chat;
pub mod nomad_view;
pub mod settings_identity;
pub mod settings_lora;
pub mod settings_wifi;

use vstd::prelude::*;

use crate::command::{Command, CommandModel, ScreenId};
use crate::context::ViewContext;
use crate::input::KeyCode;
use crate::scene::{DrawOp, Op, ops_view, push_op};
use crate::theme::{Theme, CHAR_W};
use crate::widgets::EXTENT_MAX;
use self::chat::{ChatScreen, ChatView, chat_key, chat_key_ok, chat_scene, chat_title, chat_rows, chat_chars, chat_visible, synced_scroll};
use self::chat_list::{
    ChatListScreen, chat_list_key, chat_list_key_ok, chat_list_drawable, chat_list_rendered,
    chat_list_scene,
};
use self::home::{HomeScreen, HOME_ITEMS, home_command, menu_state, home_scene, menu_visible};
use self::list::visible_scroll;
use self::new_chat::{NewChatScreen, new_chat_key, address_sliceable, new_chat_scene, blink_on};
use self::nomad_list::{NomadListScreen, nomad_list_key, nomad_list_key_ok, nomad_list_rendered, nomad_list_scene};
use self::nomad_view::{NomadViewScreen, nomad_view_key, nomad_view_key_ok, nomad_view_scene, view_title, link_at};
use self::settings::{SettingsScreen, SETTINGS_ITEMS, settings_command, settings_scene};
use self::settings_identity::{SettingsIdentityScreen, identity_key, identity_key_ok, identity_scene};
use self::settings_lora::{SettingsLoraScreen, lora_key, lora_key_ok, lora_seeded, lora_scene};
use self::settings_wifi::{SettingsWifiScreen, wifi_key, wifi_key_ok, wifi_seeded, wifi_scene};

verus! {

/// The active screen, driven by logical keys.
pub enum Screen {
    Home(HomeScreen),
    ChatList(ChatListScreen),
    Chat(ChatScreen),
    NewChat(NewChatScreen),
    NomadList(NomadListScreen),
    NomadView(NomadViewScreen),
    Settings(SettingsScreen),
    SettingsIdentity(SettingsIdentityScreen),
    SettingsWifi(SettingsWifiScreen),
    SettingsLora(SettingsLoraScreen),
}

/// The identifier of screen `s`.
pub open spec fn screen_id(s: Screen) -> ScreenId {
    match s {
        Screen::Home(_) => ScreenId::Home,
        Screen::ChatList(_) => ScreenId::ChatList,
        Screen::Chat(_) => ScreenId::Chat,
        Screen::NewChat(_) => ScreenId::NewChat,
        Screen::NomadList(_) => ScreenId::NomadList,
        Screen::NomadView(_) => ScreenId::NomadView,
        Screen::Settings(_) => ScreenId::Settings,
        Screen::SettingsIdentity(_) => ScreenId::SettingsIdentity,
        Screen::SettingsWifi(_) => ScreenId::SettingsWifi,
        Screen::SettingsLora(_) => ScreenId::SettingsLora,
    }
}

/// Whether screen `s` can take `key` (see each screen's own condition).
pub open spec fn screen_key_ok(s: Screen, key: KeyCode) -> bool {
    match s {
        Screen::Home(h) => key == KeyCode::Down ==> h.state.selected < usize::MAX,
        Screen::ChatList(c) => chat_list_key_ok(c@, key),
        Screen::Chat(c) => chat_key_ok(c@, key),
        Screen::NewChat(n) => key == KeyCode::Enter ==> address_sliceable(n.input@),
        Screen::NomadList(n) => nomad_list_key_ok(n@, key),
        Screen::NomadView(n) => nomad_view_key_ok(n@, key),
        Screen::Settings(s) => key == KeyCode::Down ==> s.state.selected < usize::MAX,
        Screen::SettingsIdentity(s) => identity_key_ok(s@, key),
        Screen::SettingsWifi(s) => wifi_key_ok(s@, key),
        Screen::SettingsLora(s) => lora_key_ok(s@, key),
    }
}

/// Whether `after` and the command `r` are what screen `before` gives for
/// `key`: the screen stays the same kind and moves as its own handler says.
pub open spec fn screen_key(before: Screen, key: KeyCode, after: Screen, r: CommandModel) -> bool {
    match (before, after) {
        (Screen::Home(a), Screen::Home(b)) => b.state == menu_state(a.state, HOME_ITEMS, key) && r
            == home_command(a.state.selected, key)@,
        (Screen::ChatList(a), Screen::ChatList(b)) => {
            let (v, c) = chat_list_key(a@, key);
            b@ == v && r == c@
        },
        (Screen::Chat(a), Screen::Chat(b)) => (b@, r) == chat_key(a@, key),
        (Screen::NewChat(a), Screen::NewChat(b)) => (b@, r) == new_chat_key(a@, key),
        (Screen::NomadList(a), Screen::NomadList(b)) => {
            let (v, c) = nomad_list_key(a@, key);
            b@ == v && r == c@
        },
        (Screen::NomadView(a), Screen::NomadView(b)) => (b@, r) == nomad_view_key(a@, key),
        (Screen::Settings(a), Screen::Settings(b)) => b.state == menu_state(
            a.state,
            SETTINGS_ITEMS,
            key,
        ) && r == settings_command(a.state.selected, key)@,
        (Screen::SettingsIdentity(a), Screen::SettingsIdentity(b)) => (b@, r) == identity_key(
            a@,
            key,
        ),
        (Screen::SettingsWifi(a), Screen::SettingsWifi(b)) => (b@, r) == wifi_key(a@, key),
        (Screen::SettingsLora(a), Screen::SettingsLora(b)) => (b@, r) == lora_key(a@, key),
        _ => false,
    }
}

/// Whether screen `s` can be drawn into a `width`×`height` frame with
/// `ctx`: the chat list's drawn conversations can be labelled, and the
/// composers fit their frame.
pub open spec fn screen_render_ok(s: Screen, ctx: ViewContext, width: i32, height: i32) -> bool {
    match s {
        Screen::ChatList(c) => ctx.conversations@.len() < usize::MAX && chat_list_drawable(
            c@,
            ctx.conversations@,
            height,
        ),
        Screen::Chat(c) => 20 <= width && (blink_on(ctx.network.uptime_ms) ==> 2 * CHAR_W
            + c@.input.len() * CHAR_W <= i32::MAX),
        Screen::NewChat(n) => n@.input.len() * CHAR_W <= EXTENT_MAX,
        Screen::SettingsIdentity(i) => i.editing ==> width >= 24,
        _ => true,
    }
}

/// Whether `after` and the frame `ops` are what drawing screen `before`
/// with `ctx` gives: the display cleared to the background colour, then
/// the screen's own scene, the screen updated as its own render says.
pub open spec fn screen_render(
    before: Screen,
    ctx: ViewContext,
    width: i32,
    height: i32,
    t: Theme,
    after: Screen,
    ops: Seq<Op>,
) -> bool {
    let clear = seq![Op::Clear { color: t.background }];
    match before {
        Screen::Home(a) => after is Home && {
            let b = after->Home_0;
            &&& b.state == (ListState {
                selected: a.state.selected,
                scroll: visible_scroll(a.state, menu_visible(height) as usize) as usize,
            })
            &&& ops == clear + home_scene(
                b.state,
                ctx.network.connected,
                ctx.identity_hex@,
                width,
                height,
                t,
            )
        },
        Screen::ChatList(a) => after is ChatList && {
            let b = after->ChatList_0;
            &&& b@ == chat_list_rendered(a@, ctx.conversations@, height)
            &&& ops == clear + chat_list_scene(a@, ctx.conversations@, ctx.network, width, height, t)
        },
        Screen::Chat(a) => after is Chat && {
            let b = after->Chat_0;
            &&& b@ == (ChatView {
                scroll: synced_scroll(
                    a@,
                    chat_rows(ctx.messages@, chat_chars(width)).len() as usize,
                    chat_visible(height) as usize,
                ),
                ..a@
            })
            &&& ops == clear + chat_scene(
                b@,
                chat_title(a@.peer, ctx.conversations@),
                chat_rows(ctx.messages@, chat_chars(width)),
                ctx.network.uptime_ms,
                width,
                height,
                t,
            )
        },
        Screen::NewChat(a) => after is NewChat && {
            let b = after->NewChat_0;
            &&& b@ == a@
            &&& ops == clear + new_chat_scene(a@, ctx.network.uptime_ms, width, t)
        },
        Screen::NomadList(a) => after is NomadList && {
            let b = after->NomadList_0;
            &&& b@ == nomad_list_rendered(a@, ctx.nodes@, height)
            &&& ops == clear + nomad_list_scene(a@, ctx.nodes@, ctx.network, width, height, t)
        },
        Screen::NomadView(a) => after is NomadView && {
            let b = after->NomadView_0;
            &&& b@.node == a@.node
            &&& b@.scroll == a@.scroll
            &&& b@.current_link == match ctx.page {
                Some(p) => link_at(p@.lines, a@.scroll),
                None => a@.current_link,
            }
            &&& ops == clear + nomad_view_scene(
                b@,
                match ctx.page {
                    Some(p) => Some(p@),
                    None => None,
                },
                view_title(
                    a@.node,
                    match ctx.page_node {
                        Some(n) => Some(n.name@),
                        None => None,
                    },
                ),
                ctx.page_notice@,
                width,
                height,
                t,
            )
        },
        Screen::Settings(a) => after is Settings && {
            let b = after->Settings_0;
            &&& b.state == a.state
            &&& ops == clear + settings_scene(
                a.state.selected,
                ctx.network,
                ctx.notice@,
                ctx.identity_hex@,
                width,
                height,
                t,
            )
        },
        Screen::SettingsIdentity(a) => after is SettingsIdentity && {
            let b = after->SettingsIdentity_0;
            &&& b@ == a@
            &&& ops == clear + identity_scene(
                a@,
                ctx.network,
                ctx.display_name@,
                ctx.notice@,
                ctx.identity_hex@,
                width,
                height,
                t,
            )
        },
        Screen::SettingsWifi(a) => after is SettingsWifi && {
            let b = after->SettingsWifi_0;
            &&& b@ == wifi_seeded(
                a@,
                ctx.network.wifi_enabled,
                ctx.wifi_ssid@,
                ctx.peer_addr@,
                ctx.peer_proto,
            )
            &&& ops == clear + wifi_scene(
                b@,
                ctx.network,
                ctx.wifi_ssid@,
                ctx.notice@,
                ctx.identity_hex@,
                width,
                height,
                t,
            )
        },
        Screen::SettingsLora(a) => after is SettingsLora && {
            let b = after->SettingsLora_0;
            &&& b@ == lora_seeded(a@, ctx.lora_settings)
            &&& ops == clear + lora_scene(b@, ctx.network, ctx.notice@, ctx.identity_hex@, width, height, t)
        },
    }
}

impl Screen {
    /// Whether [`Screen::render`] can draw this screen now (see
    /// [`screen_render_ok`]).
    pub fn can_render(&self, ctx: &ViewContext, width: i32, height: i32) -> (r: bool)
        requires
            0 <= height <= EXTENT_MAX,
        ensures
            r == screen_render_ok(*self, *ctx, width, height),
    {
        match self {
            Screen::ChatList(c) => ctx.conversations.len() < usize::MAX && c.drawable(
                ctx.conversations,
                height,
            ),
            Screen::Chat(c) => {
                let n = c.input().unicode_len();
                20 <= width && ((ctx.network.uptime_ms / 500) % 2 != 0 || n <= ((i32::MAX
                    - 2 * CHAR_W) / CHAR_W) as usize)
            },
            Screen::NewChat(n) => n.input.as_str().unicode_len() <= (EXTENT_MAX / CHAR_W) as usize,
            Screen::SettingsIdentity(i) => !i.editing || width >= 24,
            _ => true,
        }
    }

    /// Draw the active screen into a `width`×`height` frame: clear it to the
    /// background colour, then draw the screen.
    pub fn render(&mut self, ctx: &ViewContext, width: i32, height: i32, theme: &Theme) -> (ops: Vec<DrawOp>)
        requires
            theme.wf(),
            0 <= width <= EXTENT_MAX,
            0 <= height <= EXTENT_MAX,
            screen_render_ok(*old(self), *ctx, width, height),
        ensures
            screen_render(*old(self), *ctx, width, height, *theme, *final(self), ops_view(ops@)),
    {
        let mut ops: Vec<DrawOp> = Vec::new();
        push_op(&mut ops, DrawOp::Clear { color: theme.background });
        let ghost clear = ops_view(ops@);
        let mut scene = match self {
            Screen::Home(s) => s.render(ctx, width, height, theme),
            Screen::ChatList(s) => s.render(ctx, width, height, theme),
            Screen::Chat(s) => s.render(ctx, width, height, theme),
            Screen::NewChat(s) => s.render(ctx, width, theme),
            Screen::NomadList(s) => s.render(ctx, width, height, theme),
            Screen::NomadView(s) => s.render(ctx, width, height, theme),
            Screen::Settings(s) => s.render(ctx, width, height, theme),
            Screen::SettingsIdentity(s) => s.render(ctx, width, height, theme),
            Screen::SettingsWifi(s) => s.render(ctx, width, height, theme),
            Screen::SettingsLora(s) => s.render(ctx, width, height, theme),
        };
        let ghost sv = ops_view(scene@);
        ops.append(&mut scene);
        assert(clear =~= seq![Op::Clear { color: theme.background }]);
        assert(ops_view(ops@) =~= clear + sv);
        ops
    }

    pub fn id(&self) -> (r: ScreenId)
        ensures
            r == screen_id(*self),
    {
        match self {
            Screen::Home(_) => ScreenId::Home,
            Screen::ChatList(_) => ScreenId::ChatList,
            Screen::Chat(_) => ScreenId::Chat,
            Screen::NewChat(_) => ScreenId::NewChat,
            Screen::NomadList(_) => ScreenId::NomadList,
            Screen::NomadView(_) => ScreenId::NomadView,
            Screen::Settings(_) => ScreenId::Settings,
            Screen::SettingsIdentity(_) => ScreenId::SettingsIdentity,
            Screen::SettingsWifi(_) => ScreenId::SettingsWifi,
            Screen::SettingsLora(_) => ScreenId::SettingsLora,
        }
    }

    /// Whether [`Screen::handle_key`] can take `key` now.
    pub fn accepts(&self, key: KeyCode) -> (r: bool)
        ensures
            r == screen_key_ok(*self, key),
    {
        match self {
            Screen::Home(h) => key != KeyCode::Down || h.state.selected < usize::MAX,
            Screen::ChatList(c) => c.accepts(key),
            Screen::Chat(c) => c.accepts(key),
            Screen::NewChat(n) => n.accepts(key),
            Screen::NomadList(n) => n.accepts(key),
            Screen::NomadView(n) => n.accepts(key),
            Screen::Settings(s) => key != KeyCode::Down || s.state.selected < usize::MAX,
            Screen::SettingsIdentity(s) => s.accepts(key),
            Screen::SettingsWifi(s) => s.accepts(key),
            Screen::SettingsLora(s) => s.accepts(key),
        }
    }

    /// Hand `key` to the active screen.
    pub fn handle_key(&mut self, key: KeyCode) -> (r: Command)
        requires
            screen_key_ok(*old(self), key),
        ensures
            screen_key(*old(self), key, *final(self), r@),
    {
        match self {
            Screen::Home(s) => s.handle_key(key),
            Screen::ChatList(s) => s.handle_key(key),
            Screen::Chat(s) => s.handle_key(key),
            Screen::NewChat(s) => s.handle_key(key),
            Screen::NomadList(s) => s.handle_key(key),
            Screen::NomadView(s) => s.handle_key(key),
            Screen::Settings(s) => s.handle_key(key),
            Screen::SettingsIdentity(s) => s.handle_key(key),
            Screen::SettingsWifi(s) => s.handle_key(key),
            Screen::SettingsLora(s) => s.handle_key(key),
        }
    }

    /// Whether this screen is currently composing text.
    pub fn is_input(&self) -> (r: bool)
        ensures
            r == (*self is Chat || *self is NewChat),
    {
        match self {
            Screen::Chat(_) | Screen::NewChat(_) => true,
            _ => false,
        }
    }
}

} // verus!
