//! The application's decisions: which screen is shown, the back stack, the
//! held modifier keys, and what a screen's command asks the outside world to
//! do. The platform loop reads input, hands key events here, and performs
//! the returned [`Action`]s (network sends, page fetches, persistence).

use vstd::prelude::*;

use crate::command::{Command, CommandModel, LoraSettings, ScreenId, WifiSettings, WifiModel};
use crate::input::{KeyCode, KeyEvent, KeyState};
use crate::screens::{Screen, screen_key, screen_key_ok};
use crate::screens::chat::{ChatScreen, ChatView};
use crate::screens::chat_list::{ChatListScreen, ChatListView};
use crate::screens::home::HomeScreen;
use crate::screens::list::ListState;
use crate::screens::new_chat::{NewChatScreen, NewChatView};
use crate::screens::nomad_list::{NomadListScreen, NomadListView};
use crate::screens::nomad_view::{NomadViewScreen, NomadViewView};
use crate::screens::settings::SettingsScreen;
use crate::screens::settings_identity::{SettingsIdentityScreen, IdentityView};
use crate::screens::settings_lora::{SettingsLoraScreen, LoraView};
use crate::screens::settings_wifi::{SettingsWifiScreen, WifiView};
use crate::command::PeerProtocol;
use crate::text::{chars_of, string_of};

verus! {

/// Frame/input poll interval of the UI loop, in milliseconds.
pub const FRAME_MS: u64 = 25;

/// Maximum number of messages kept in memory.
pub const MAX_MESSAGES: usize = 512;

/// The page fetched when a node is opened.
pub const DEFAULT_PAGE_PATH: &'static str = "/page/index.mu";

/// Outside work a command asks for.
#[derive(Debug, Clone, PartialEq)]
pub enum Action {
    /// Nothing to do.
    Idle,
    /// Send a message to a peer.
    Send { peer: [u8; 16], text: String },
    /// Fetch a page from a node.
    Fetch { node: [u8; 16], path: String },
    /// Re-announce our identity.
    Announce,
    /// Announce under a new display name.
    SetDisplayName(String),
    /// Generate and persist a new identity (a restart follows).
    RegenerateIdentity,
    /// Persist new network settings (a restart follows).
    PersistWifi(WifiSettings),
    /// Persist new radio settings (a restart follows).
    PersistLora(LoraSettings),
    /// Mark the conversation with a peer as read now and load its messages.
    OpenChat([u8; 16]),
}

/// Abstract value of an [`Action`].
pub enum ActionModel {
    Idle,
    Send { peer: [u8; 16], text: Seq<char> },
    Fetch { node: [u8; 16], path: Seq<char> },
    Announce,
    SetDisplayName(Seq<char>),
    RegenerateIdentity,
    PersistWifi(WifiModel),
    PersistLora(LoraSettings),
    OpenChat([u8; 16]),
}

impl View for Action {
    type V = ActionModel;

    open spec fn view(&self) -> ActionModel {
        match self {
            Action::Idle => ActionModel::Idle,
            Action::Send { peer, text } => ActionModel::Send { peer: *peer, text: text@ },
            Action::Fetch { node, path } => ActionModel::Fetch { node: *node, path: path@ },
            Action::Announce => ActionModel::Announce,
            Action::SetDisplayName(n) => ActionModel::SetDisplayName(n@),
            Action::RegenerateIdentity => ActionModel::RegenerateIdentity,
            Action::PersistWifi(w) => ActionModel::PersistWifi(w@),
            Action::PersistLora(l) => ActionModel::PersistLora(*l),
            Action::OpenChat(p) => ActionModel::OpenChat(*p),
        }
    }
}

/// The UI state of the application.
pub struct AppCore {
    screen: Screen,
    back_stack: Vec<Screen>,
    quit_on_root_back: bool,
    quit: bool,
    restart_requested: bool,
    display_name: String,
    wifi_ssid: String,
    lora_settings: LoraSettings,
    notice: String,
    active_peer: Option<[u8; 16]>,
    ctrl_held: bool,
    alt_held: bool,
}

/// Abstract value of an [`AppCore`].
pub struct CoreView {
    pub screen: Screen,
    pub back_stack: Seq<Screen>,
    pub quit_on_root_back: bool,
    pub quit: bool,
    pub restart_requested: bool,
    pub display_name: Seq<char>,
    pub wifi_ssid: Seq<char>,
    pub lora_settings: LoraSettings,
    pub notice: Seq<char>,
    pub active_peer: Option<[u8; 16]>,
    pub ctrl_held: bool,
    pub alt_held: bool,
}

impl View for AppCore {
    type V = CoreView;

    closed spec fn view(&self) -> CoreView {
        CoreView {
            screen: self.screen,
            back_stack: self.back_stack@,
            quit_on_root_back: self.quit_on_root_back,
            quit: self.quit,
            restart_requested: self.restart_requested,
            display_name: self.display_name@,
            wifi_ssid: self.wifi_ssid@,
            lora_settings: self.lora_settings,
            notice: self.notice@,
            active_peer: self.active_peer,
            ctrl_held: self.ctrl_held,
            alt_held: self.alt_held,
        }
    }
}

/// Whether `s` is the freshly opened screen `id` (for the screens that open
/// without context).
pub open spec fn fresh(id: ScreenId, s: Screen) -> bool {
    match (id, s) {
        (ScreenId::Home, Screen::Home(h)) => h.state == ListState { selected: 0, scroll: 0 },
        (ScreenId::ChatList, Screen::ChatList(c)) => c@ == ChatListView {
            state: ListState { selected: 0, scroll: 0 },
            selected_peer: None,
            item_count: 1,
            filter: Seq::empty(),
        },
        (ScreenId::NewChat, Screen::NewChat(n)) => n@ == NewChatView {
            input: Seq::empty(),
            error: None,
        },
        (ScreenId::NomadList, Screen::NomadList(n)) => n@ == NomadListView {
            state: ListState { selected: 0, scroll: 0 },
            selected: None,
            count: 0,
            filter: Seq::empty(),
        },
        (ScreenId::Settings, Screen::Settings(s)) => s.state == ListState { selected: 0, scroll: 0 },
        (ScreenId::SettingsIdentity, Screen::SettingsIdentity(s)) => s@ == IdentityView {
            state: ListState { selected: 0, scroll: 0 },
            editing: false,
            name_input: Seq::empty(),
        },
        (ScreenId::SettingsWifi, Screen::SettingsWifi(s)) => s@ == WifiView {
            state: ListState { selected: 0, scroll: 0 },
            enabled: false,
            editing: None,
            ssid_input: Seq::empty(),
            pass_input: Seq::empty(),
            peer_input: Seq::empty(),
            peer_proto: PeerProtocol::Tcp,
            seeded: false,
        },
        (ScreenId::SettingsLora, Screen::SettingsLora(s)) => s@ == LoraView {
            state: ListState { selected: 0, scroll: 0 },
            enabled: false,
            editing: None,
            freq_input: Seq::empty(),
            bw_input: Seq::empty(),
            sf_input: Seq::empty(),
            cr_input: Seq::empty(),
            txp_input: Seq::empty(),
            seeded: false,
        },
        _ => false,
    }
}

/// Whether `s` is a freshly opened chat with `peer`.
pub open spec fn fresh_chat(peer: [u8; 16], s: Screen) -> bool {
    s matches Screen::Chat(c) && c@ == ChatView {
        peer,
        input: Seq::empty(),
        error: None,
        scroll: 0,
        following: true,
    }
}

/// Whether `s` is a freshly opened page view of `node`.
pub open spec fn fresh_view(node: [u8; 16], s: Screen) -> bool {
    s matches Screen::NomadView(v) && v@ == NomadViewView { node, scroll: 0, current_link: None }
}

/// Whether `t` is `s` with a new screen shown on top of the old one, which
/// goes onto the back stack.
pub open spec fn pushed(s: CoreView, t: CoreView) -> bool {
    t == CoreView { screen: t.screen, back_stack: s.back_stack.push(s.screen), ..s }
}

/// Whether `id` is a screen that opens without context.
pub open spec fn opens_plain(id: ScreenId) -> bool {
    id != ScreenId::Home && id != ScreenId::Chat && id != ScreenId::NomadView
}

/// Whether executing `cmd` takes the UI from `s` to `t` and asks for `a`.
pub open spec fn executed(s: CoreView, cmd: CommandModel, t: CoreView, a: ActionModel) -> bool {
    match cmd {
        CommandModel::NoOp => t == s && a == ActionModel::Idle,
        CommandModel::Back => a == ActionModel::Idle && if s.back_stack.len() > 0 {
            let prev = s.back_stack.last();
            t == CoreView {
                screen: prev,
                back_stack: s.back_stack.drop_last(),
                active_peer: if prev is Chat {
                    s.active_peer
                } else {
                    None
                },
                ..s
            }
        } else {
            t == CoreView { quit: s.quit_on_root_back, ..s }
        },
        CommandModel::Quit => t == CoreView { quit: true, ..s } && a == ActionModel::Idle,
        CommandModel::ShowScreen(id) => a == ActionModel::Idle && if id == ScreenId::Home {
            fresh(ScreenId::Home, t.screen) && t == CoreView {
                screen: t.screen,
                back_stack: Seq::empty(),
                ..s
            }
        } else if opens_plain(id) {
            pushed(s, t) && fresh(id, t.screen)
        } else {
            t == s
        },
        CommandModel::StartChat(peer) => a == ActionModel::OpenChat(peer) && fresh_chat(
            peer,
            t.screen,
        ) && t == CoreView {
            screen: t.screen,
            back_stack: s.back_stack.push(s.screen),
            active_peer: Some(peer),
            ..s
        },
        CommandModel::SendMessage { peer, text } => t == s && a == ActionModel::Send { peer, text },
        CommandModel::FetchPage { node, path } => t == s && a == ActionModel::Fetch { node, path },
        CommandModel::OpenNode(node) => pushed(s, t) && fresh_view(node, t.screen) && a
            == ActionModel::Fetch { node, path: DEFAULT_PAGE_PATH@ },
        CommandModel::Announce => t == s && a == ActionModel::Announce,
        CommandModel::SetDisplayName(name) => t == CoreView { display_name: name, ..s } && a
            == ActionModel::SetDisplayName(name),
        CommandModel::RegenerateIdentity => t == CoreView {
            notice: "New identity saved. Restarting…"@,
            restart_requested: true,
            ..s
        } && a == ActionModel::RegenerateIdentity,
        CommandModel::SaveWifi(w) => t == CoreView {
            wifi_ssid: w.ssid,
            notice: "WiFi saved. Restarting…"@,
            restart_requested: true,
            ..s
        } && a == ActionModel::PersistWifi(w),
        CommandModel::SaveLora(l) => t == CoreView {
            lora_settings: l,
            notice: "LoRa settings saved. Restarting…"@,
            restart_requested: true,
            ..s
        } && a == ActionModel::PersistLora(l),
    }
}

/// The key a pressed key event hands to the screen: Backspace with Ctrl or
/// Alt held means back (Esc); the modifiers themselves reach no screen.
pub open spec fn screen_key_for(s: CoreView, ev: KeyEvent) -> Option<KeyCode> {
    if ev.state == KeyState::Pressed {
        match ev.code {
            KeyCode::Ctrl | KeyCode::Alt => None,
            KeyCode::Backspace => if s.ctrl_held || s.alt_held {
                Some(KeyCode::Esc)
            } else {
                Some(KeyCode::Backspace)
            },
            code => Some(code),
        }
    } else {
        None
    }
}

/// The modifier state after `ev`.
pub open spec fn modifiers_after(s: CoreView, ev: KeyEvent) -> CoreView {
    match (ev.state, ev.code) {
        (KeyState::Pressed, KeyCode::Ctrl) => CoreView { ctrl_held: true, ..s },
        (KeyState::Pressed, KeyCode::Alt) => CoreView { alt_held: true, ..s },
        (KeyState::Released, KeyCode::Ctrl) => CoreView { ctrl_held: false, ..s },
        (KeyState::Released, KeyCode::Alt) => CoreView { alt_held: false, ..s },
        _ => s,
    }
}

/// Whether the shown screen can take the key event `ev`.
pub open spec fn event_ok(s: CoreView, ev: KeyEvent) -> bool {
    match screen_key_for(s, ev) {
        Some(k) => screen_key_ok(s.screen, k),
        None => true,
    }
}

/// Whether key event `ev` takes the UI from `s` to `t` and asks for `a`: the
/// key goes to the shown screen and its command is executed; modifiers are
/// only tracked.
pub open spec fn key_handled(s: CoreView, ev: KeyEvent, t: CoreView, a: ActionModel) -> bool {
    match screen_key_for(s, ev) {
        Some(k) => exists|after: Screen, cmd: CommandModel|
            #[trigger] screen_key(s.screen, k, after, cmd) && executed(
                CoreView { screen: after, ..s },
                cmd,
                t,
                a,
            ),
        None => t == modifiers_after(s, ev) && a == ActionModel::Idle,
    }
}

impl AppCore {
    /// The UI at start-up: the home menu, nothing behind it.
    pub fn new(
        quit_on_root_back: bool,
        display_name: String,
        wifi_ssid: String,
        lora_settings: LoraSettings,
    ) -> (r: Self)
        ensures
            fresh(ScreenId::Home, r@.screen),
            r@.back_stack.len() == 0,
            r@.quit_on_root_back == quit_on_root_back,
            !r@.quit,
            !r@.restart_requested,
            r@.display_name == display_name@,
            r@.wifi_ssid == wifi_ssid@,
            r@.lora_settings == lora_settings,
            r@.notice.len() == 0,
            r@.active_peer is None,
            !r@.ctrl_held,
            !r@.alt_held,
    {
        AppCore {
            screen: Screen::Home(HomeScreen::new()),
            back_stack: Vec::new(),
            quit_on_root_back,
            quit: false,
            restart_requested: false,
            display_name,
            wifi_ssid,
            lora_settings,
            notice: String::new(),
            active_peer: None,
            ctrl_held: false,
            alt_held: false,
        }
    }

    /// The shown screen.
    pub fn screen(&self) -> (r: &Screen)
        ensures
            *r == self@.screen,
    {
        &self.screen
    }

    /// The shown screen, for syncing it with fresh data before rendering.
    pub fn screen_mut(&mut self) -> (r: &mut Screen)
        ensures
            *r == old(self)@.screen,
            final(self)@ == (CoreView { screen: *final(r), ..old(self)@ }),
    {
        &mut self.screen
    }

    /// Whether the application should stop.
    pub fn quit(&self) -> (r: bool)
        ensures
            r == self@.quit,
    {
        self.quit
    }

    /// Whether a settings change asked for a restart.
    pub fn restart_requested(&self) -> (r: bool)
        ensures
            r == self@.restart_requested,
    {
        self.restart_requested
    }

    /// The notice shown on the settings screens.
    pub fn notice(&self) -> (r: &str)
        ensures
            r@ == self@.notice,
    {
        self.notice.as_str()
    }

    /// Our display name.
    pub fn display_name(&self) -> (r: &str)
        ensures
            r@ == self@.display_name,
    {
        self.display_name.as_str()
    }

    /// The configured network name.
    pub fn wifi_ssid(&self) -> (r: &str)
        ensures
            r@ == self@.wifi_ssid,
    {
        self.wifi_ssid.as_str()
    }

    /// The configured radio settings.
    pub fn lora_settings(&self) -> (r: LoraSettings)
        ensures
            r == self@.lora_settings,
    {
        self.lora_settings
    }

    /// The peer of the open conversation, if any.
    pub fn active_peer(&self) -> (r: Option<[u8; 16]>)
        ensures
            r == self@.active_peer,
    {
        self.active_peer
    }

    /// Show `screen`, keeping the current one to go back to.
    fn push(&mut self, screen: Screen)
        ensures
            final(self)@ == (CoreView {
                screen,
                back_stack: old(self)@.back_stack.push(old(self)@.screen),
                ..old(self)@
            }),
    {
        let mut prev = screen;
        std::mem::swap(&mut self.screen, &mut prev);
        self.back_stack.push(prev);
    }

    /// Open the screen `id` (screens that need context open by their own
    /// commands; Home clears the back stack).
    fn push_screen(&mut self, id: ScreenId)
        ensures
            executed(old(self)@, CommandModel::ShowScreen(id), final(self)@, ActionModel::Idle),
    {
        let screen = match id {
            ScreenId::Home => {
                self.back_stack = Vec::new();
                self.screen = Screen::Home(HomeScreen::new());
                return ;
            },
            ScreenId::ChatList => Screen::ChatList(ChatListScreen::new()),
            ScreenId::NewChat => Screen::NewChat(NewChatScreen::new()),
            ScreenId::NomadList => Screen::NomadList(NomadListScreen::new()),
            ScreenId::Settings => Screen::Settings(SettingsScreen::new()),
            ScreenId::SettingsIdentity => Screen::SettingsIdentity(SettingsIdentityScreen::new()),
            ScreenId::SettingsWifi => Screen::SettingsWifi(SettingsWifiScreen::new()),
            ScreenId::SettingsLora => Screen::SettingsLora(SettingsLoraScreen::new()),
            ScreenId::Chat | ScreenId::NomadView => {
                return ;
            },
        };
        self.push(screen);
    }

    /// Carry out a screen's command; return the outside work it asks for.
    pub fn execute(&mut self, cmd: Command) -> (r: Action)
        ensures
            executed(old(self)@, cmd@, final(self)@, r@),
    {
        match cmd {
            Command::NoOp => Action::Idle,
            Command::Back => {
                match self.back_stack.pop() {
                    Some(prev) => {
                        self.screen = prev;
                        let in_chat = match &self.screen {
                            Screen::Chat(_) => true,
                            _ => false,
                        };
                        if !in_chat {
                            self.active_peer = None;
                        }
                    },
                    None => {
                        self.quit = self.quit_on_root_back;
                    },
                }
                Action::Idle
            },
            Command::Quit => {
                self.quit = true;
                Action::Idle
            },
            Command::ShowScreen(id) => {
                self.push_screen(id);
                Action::Idle
            },
            Command::StartChat(peer) => {
                self.active_peer = Some(peer);
                self.push(Screen::Chat(ChatScreen::new(peer)));
                Action::OpenChat(peer)
            },
            Command::SendMessage { peer, text } => Action::Send { peer, text },
            Command::FetchPage { node, path } => Action::Fetch { node, path },
            Command::OpenNode(node) => {
                self.push(Screen::NomadView(NomadViewScreen::new(node)));
                Action::Fetch { node, path: string_of(&chars_of(DEFAULT_PAGE_PATH)) }
            },
            Command::Announce => Action::Announce,
            Command::SetDisplayName(name) => {
                self.display_name = string_of(&chars_of(name.as_str()));
                Action::SetDisplayName(name)
            },
            Command::RegenerateIdentity => {
                self.notice = string_of(&chars_of("New identity saved. Restarting…"));
                self.restart_requested = true;
                Action::RegenerateIdentity
            },
            Command::SaveWifi(w) => {
                self.wifi_ssid = string_of(&chars_of(w.ssid.as_str()));
                self.notice = string_of(&chars_of("WiFi saved. Restarting…"));
                self.restart_requested = true;
                Action::PersistWifi(w)
            },
            Command::SaveLora(l) => {
                self.lora_settings = l;
                self.notice = string_of(&chars_of("LoRa settings saved. Restarting…"));
                self.restart_requested = true;
                Action::PersistLora(l)
            },
        }
    }

    /// Whether [`AppCore::on_key`] can take `ev` now.
    pub fn accepts(&self, ev: KeyEvent) -> (r: bool)
        ensures
            r == event_ok(self@, ev),
    {
        if ev.state != KeyState::Pressed {
            return true;
        }
        match ev.code {
            KeyCode::Ctrl | KeyCode::Alt => true,
            KeyCode::Backspace => if self.ctrl_held || self.alt_held {
                self.screen.accepts(KeyCode::Esc)
            } else {
                self.screen.accepts(KeyCode::Backspace)
            },
            code => self.screen.accepts(code),
        }
    }

    /// Take one key event: track Ctrl/Alt, otherwise hand the key to the
    /// shown screen and execute its command.
    pub fn on_key(&mut self, ev: KeyEvent) -> (r: Action)
        requires
            event_ok(old(self)@, ev),
        ensures
            key_handled(old(self)@, ev, final(self)@, r@),
    {
        if ev.state == KeyState::Pressed {
            let key = match ev.code {
                KeyCode::Ctrl => {
                    self.ctrl_held = true;
                    return Action::Idle;
                },
                KeyCode::Alt => {
                    self.alt_held = true;
                    return Action::Idle;
                },
                KeyCode::Backspace => if self.ctrl_held || self.alt_held {
                    KeyCode::Esc
                } else {
                    KeyCode::Backspace
                },
                code => code,
            };
            let ghost before = self@;
            let cmd = self.screen.handle_key(key);
            let ghost mid = self@;
            assert(mid == CoreView { screen: mid.screen, ..before });
            let a = self.execute(cmd);
            proof {
                assert(screen_key(before.screen, key, mid.screen, cmd@));
            }
            a
        } else {
            match ev.code {
                KeyCode::Ctrl => {
                    self.ctrl_held = false;
                },
                KeyCode::Alt => {
                    self.alt_held = false;
                },
                _ => {},
            }
            Action::Idle
        }
    }
}

/// Going back undoes opening a screen: after a screen that opens without
/// context is shown, Back restores the screen and back stack from before.
pub proof fn lemma_back_undoes_open(
    s: CoreView,
    id: ScreenId,
    t: CoreView,
    u: CoreView,
    a: ActionModel,
    b: ActionModel,
)
    requires
        opens_plain(id),
        executed(s, CommandModel::ShowScreen(id), t, a),
        executed(t, CommandModel::Back, u, b),
    ensures
        u.screen == s.screen,
        u.back_stack == s.back_stack,
        u.quit == s.quit,
{
    assert(t.back_stack.drop_last() =~= s.back_stack);
}

/// Back at the root quits exactly when the platform allows it, and changes
/// nothing else.
pub proof fn lemma_back_at_root(s: CoreView, t: CoreView, a: ActionModel)
    requires
        s.back_stack.len() == 0,
        executed(s, CommandModel::Back, t, a),
    ensures
        t.quit == s.quit_on_root_back,
        t.screen == s.screen,
        t.back_stack.len() == 0,
{
}

} // verus!
