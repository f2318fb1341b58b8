//! Settings sub-menu: WiFi network — enable/disable, SSID, password and the
//! remote Reticulum peer.

use vstd::prelude::*;

use crate::command::{Command, CommandModel, PeerProtocol, WifiSettings, WifiModel};
use crate::input::{KeyCode, is_ascii_char};
use crate::screens::chat::drop_last_char;
use crate::screens::home::menu_state;
use crate::screens::list::ListState;
use crate::text::{trim, chars_of, string_of, string_push, string_pop, trim_string, append_str, concat};
use crate::context::{NetworkState, ViewContext};
use crate::scene::{DrawOp, Op, ops_view};
use crate::theme::{Theme, LINE_H};
use crate::widgets::{
    EXTENT_MAX, bar_ops, draw_bar, draw_header, draw_row, draw_text, header_ops, px, px_of,
    row_ops, text_op, truncate, truncated,
};

verus! {

/// Number of rows of the WiFi menu (toggle, SSID, password, peer, protocol,
/// save).
pub const WIFI_ITEMS: usize = 6;

/// An editable text field of the WiFi menu.
#[derive(Debug, Clone, Copy, PartialEq, Eq, Structural)]
pub enum WifiField {
    Ssid,
    Password,
    Peer,
}

/// The WiFi sub-menu.
#[derive(Debug, Default)]
pub struct SettingsWifiScreen {
    state: ListState,
    enabled: bool,
    editing: Option<WifiField>,
    ssid_input: String,
    pass_input: String,
    peer_input: String,
    peer_proto: PeerProtocol,
    /// Whether the enabled/peer values have been seeded from the current config.
    seeded: bool,
}

/// Abstract value of a [`SettingsWifiScreen`].
pub struct WifiView {
    pub state: ListState,
    pub enabled: bool,
    pub editing: Option<WifiField>,
    pub ssid_input: Seq<char>,
    pub pass_input: Seq<char>,
    pub peer_input: Seq<char>,
    pub peer_proto: PeerProtocol,
    pub seeded: bool,
}

impl View for SettingsWifiScreen {
    type V = WifiView;

    closed spec fn view(&self) -> WifiView {
        WifiView {
            state: self.state,
            enabled: self.enabled,
            editing: self.editing,
            ssid_input: self.ssid_input@,
            pass_input: self.pass_input@,
            peer_input: self.peer_input@,
            peer_proto: self.peer_proto,
            seeded: self.seeded,
        }
    }
}


/// The text typed for field `f`.
pub open spec fn wifi_input(s: WifiView, f: WifiField) -> Seq<char> {
    match f {
        WifiField::Ssid => s.ssid_input,
        WifiField::Password => s.pass_input,
        WifiField::Peer => s.peer_input,
    }
}

/// `s` with the text of field `f` replaced by `t`.
pub open spec fn with_wifi_input(s: WifiView, f: WifiField, t: Seq<char>) -> WifiView {
    match f {
        WifiField::Ssid => WifiView { ssid_input: t, ..s },
        WifiField::Password => WifiView { pass_input: t, ..s },
        WifiField::Peer => WifiView { peer_input: t, ..s },
    }
}

/// The other protocol.
pub open spec fn toggled(p: PeerProtocol) -> PeerProtocol {
    match p {
        PeerProtocol::Tcp => PeerProtocol::Udp,
        PeerProtocol::Udp => PeerProtocol::Tcp,
    }
}

/// The settings saved from `s`: SSID and peer trimmed, password as typed.
pub open spec fn wifi_settings_of(s: WifiView) -> WifiModel {
    WifiModel {
        enabled: s.enabled,
        ssid: trim(s.ssid_input),
        password: s.pass_input,
        peer_addr: trim(s.peer_input),
        peer_proto: s.peer_proto,
    }
}

/// The WiFi menu's state and command after `key`.
pub open spec fn wifi_key(s: WifiView, key: KeyCode) -> (WifiView, CommandModel) {
    match s.editing {
        Some(f) => {
            let t = wifi_input(s, f);
            match key {
                KeyCode::Char(c) => if is_ascii_char(c) {
                    (with_wifi_input(s, f, t.push(c)), CommandModel::NoOp)
                } else {
                    (s, CommandModel::NoOp)
                },
                KeyCode::Space => (with_wifi_input(s, f, t.push(' ')), CommandModel::NoOp),
                KeyCode::Backspace => (
                    with_wifi_input(s, f, drop_last_char(t)),
                    CommandModel::NoOp,
                ),
                KeyCode::Enter | KeyCode::Esc => (WifiView { editing: None, ..s }, CommandModel::NoOp),
                _ => (s, CommandModel::NoOp),
            }
        },
        None => match key {
            KeyCode::Enter => if s.state.selected == 0 {
                (WifiView { enabled: !s.enabled, ..s }, CommandModel::NoOp)
            } else if s.state.selected == 1 {
                (WifiView { editing: Some(WifiField::Ssid), ..s }, CommandModel::NoOp)
            } else if s.state.selected == 2 {
                (WifiView { editing: Some(WifiField::Password), ..s }, CommandModel::NoOp)
            } else if s.state.selected == 3 {
                (WifiView { editing: Some(WifiField::Peer), ..s }, CommandModel::NoOp)
            } else if s.state.selected == 4 {
                (WifiView { peer_proto: toggled(s.peer_proto), ..s }, CommandModel::NoOp)
            } else {
                (s, CommandModel::SaveWifi(wifi_settings_of(s)))
            },
            KeyCode::Esc => (s, CommandModel::Back),
            _ => (WifiView { state: menu_state(s.state, WIFI_ITEMS, key), ..s }, CommandModel::NoOp),
        },
    }
}

/// Whether the WiFi menu can take `key` without overflowing its selection.
pub open spec fn wifi_key_ok(s: WifiView, key: KeyCode) -> bool {
    s.editing is None && key == KeyCode::Down ==> s.state.selected < usize::MAX
}

/// A password shown as bullets except for its last character.
pub open spec fn masked(p: Seq<char>) -> Seq<char> {
    if p.len() == 0 {
        Seq::empty()
    } else {
        Seq::new((p.len() - 1) as nat, |_i: int| '•').push(p.last())
    }
}

/// The text shown for a field holding `value`: as typed while editing,
/// else the password masked, and a placeholder when empty.
pub open spec fn field_text(field: WifiField, value: Seq<char>, editing: bool) -> Seq<char> {
    if editing {
        value
    } else if field == WifiField::Password && value.len() > 0 {
        masked(value)
    } else if value.len() == 0 {
        if field == WifiField::Password {
            "••••"@
        } else {
            "(none)"@
        }
    } else {
        value
    }
}

/// The network status line for the configured SSID.
pub open spec fn wifi_status(enabled: bool, ssid: Seq<char>) -> Seq<char> {
    if !enabled {
        "Network: disabled"@
    } else if ssid.len() > 0 {
        "Network: "@ + ssid
    } else {
        "Network: not configured"@
    }
}

/// `pass` shown as bullets except for its last character.
pub fn mask_password(pass: &str) -> (r: String)
    ensures
        r@ == masked(pass@),
{
    let v = chars_of(pass);
    let n = v.len();
    if n == 0 {
        return String::new();
    }
    let mut out: Vec<char> = Vec::new();
    let mut i: usize = 0;
    while i < n - 1
        invariant
            n == v.len(),
            n > 0,
            i <= n - 1,
            out@ == Seq::new(i as nat, |_i: int| '•'),
        decreases n - 1 - i,
    {
        out.push('•');
        i += 1;
        assert(out@ =~= Seq::new(i as nat, |_i: int| '•'));
    }
    out.push(v[n - 1]);
    string_of(&out)
}

/// The network status line shown above the menu.
pub fn status_line(enabled: bool, ssid: &str) -> (r: String)
    ensures
        r@ == wifi_status(enabled, ssid@),
{
    if !enabled {
        string_of(&chars_of("Network: disabled"))
    } else if !ssid.is_empty() {
        let mut v = chars_of("Network: ");
        append_str(&mut v, ssid);
        string_of(&v)
    } else {
        string_of(&chars_of("Network: not configured"))
    }
}

/// The row of field `f` labelled `label`, highlighted while selected (row
/// `index`) or edited.
pub open spec fn field_row_ops(s: WifiView, y: int, index: usize, label: Seq<char>, f: WifiField, width: i32, t: Theme) -> Seq<Op> {
    row_ops(
        0,
        y as i32,
        label + ": "@ + field_text(f, wifi_input(s, f), s.editing == Some(f)),
        width,
        s.state.selected == index || s.editing == Some(f),
        t.text,
        t,
    )
}

/// The editable rows of the WiFi menu, from `y`: the toggle, the SSID, the
/// password, the remote endpoint, its protocol and "Save & restart".
pub open spec fn wifi_rows_ops(s: WifiView, y: int, width: i32, t: Theme) -> Seq<Op> {
    row_ops(
        0,
        y as i32,
        "Enabled: "@ + if s.enabled {
            "on"@
        } else {
            "off"@
        },
        width,
        s.state.selected == 0,
        t.text,
        t,
    ) + field_row_ops(s, y + LINE_H, 1, "SSID"@, WifiField::Ssid, width, t) + field_row_ops(
        s,
        y + 2 * LINE_H,
        2,
        "Password"@,
        WifiField::Password,
        width,
        t,
    ) + field_row_ops(s, y + 3 * LINE_H, 3, "Remote endpoint"@, WifiField::Peer, width, t) + row_ops(
        0,
        (y + 4 * LINE_H) as i32,
        "Remote protocol: "@ + match s.peer_proto {
            PeerProtocol::Tcp => "TCP"@,
            PeerProtocol::Udp => "UDP"@,
        },
        width,
        s.state.selected == 4,
        t.text,
        t,
    ) + row_ops(0, (y + 5 * LINE_H) as i32, "Save & restart"@, width, s.state.selected == 5, t.text, t)
}

/// The WiFi menu after [`SettingsWifiScreen::render`] seeded it.
pub open spec fn wifi_seeded(s: WifiView, enabled: bool, ssid: Seq<char>, peer_addr: Seq<char>, peer_proto: PeerProtocol) -> WifiView {
    if s.seeded {
        s
    } else {
        WifiView { seeded: true, enabled, ssid_input: ssid, peer_input: peer_addr, peer_proto, ..s }
    }
}

/// What the WiFi menu draws for the (seeded) menu state `s`: the header;
/// the configured network and the link status; the rows; any notice; and
/// the footer.
pub open spec fn wifi_scene(
    s: WifiView,
    n: NetworkState,
    ssid: Seq<char>,
    notice: Seq<char>,
    identity_hex: Seq<char>,
    width: i32,
    height: i32,
    t: Theme,
) -> Seq<Op> {
    let notice_ops = if notice.len() == 0 {
        Seq::empty()
    } else {
        seq![text_op(0, (10 * LINE_H + 4) as i32, notice, t.ok)]
    };
    header_ops(width, "WiFi"@, ""@, n, t) + seq![
        text_op(0, LINE_H, wifi_status(s.enabled, ssid), t.text_dim),
        text_op(
            0,
            (2 * LINE_H) as i32,
            if n.wifi_connected {
                "Link: connected"@
            } else {
                "Link: not connected"@
            },
            t.text_dim,
        ),
    ] + wifi_rows_ops(s, 3 * LINE_H + 4, width, t) + notice_ops + bar_ops(
        0,
        (height - LINE_H) as i32,
        px(width),
        LINE_H as u32,
        "ALT+Backspace back"@,
        truncated(identity_hex, 12),
        t.surface,
        t.text_dim,
        t.border,
    )
}

impl SettingsWifiScreen {
    /// The list's selection and scroll.
    pub fn state(&self) -> (r: ListState)
        ensures
            r == self@.state,
    {
        self.state
    }

    /// Draw the row of field `f` (see [`field_row_ops`]).
    fn draw_field(
        &self,
        ops: &mut Vec<DrawOp>,
        width: i32,
        y: i32,
        theme: &Theme,
        index: usize,
        label: &str,
        field: WifiField,
    )
        requires
            theme.wf(),
            0 <= width <= EXTENT_MAX,
        ensures
            ops_view(final(ops)@) == ops_view(old(ops)@) + field_row_ops(
                self@,
                y as int,
                index,
                label@,
                field,
                width,
                *theme,
            ),
    {
        let is_selected = self.state.selected == index;
        let is_editing = match self.editing {
            Some(e) => e == field,
            None => false,
        };
        let text = self.shown(field);
        let head = concat(label, ": ");
        let line = concat(head.as_str(), text.as_str());
        draw_row(ops, 0, y, line.as_str(), width, is_selected || is_editing, theme.text, theme);
    }

    /// Draw the rows of the menu from `y` (see [`wifi_rows_ops`]).
    fn draw_rows(&self, ops: &mut Vec<DrawOp>, width: i32, y: i32, theme: &Theme)
        requires
            theme.wf(),
            0 <= width <= EXTENT_MAX,
            0 <= y <= 100,
        ensures
            ops_view(final(ops)@) == ops_view(old(ops)@) + wifi_rows_ops(self@, y as int, width, *theme),
    {
        let ghost start = ops_view(ops@);
        // Row 0: enabled toggle.
        let line = concat("Enabled: ", if self.enabled { "on" } else { "off" });
        draw_row(ops, 0, y, line.as_str(), width, self.state.selected == 0, theme.text, theme);
        // Row 1: SSID.
        self.draw_field(ops, width, y + theme.line_h, theme, 1, "SSID", WifiField::Ssid);
        // Row 2: password.
        self.draw_field(ops, width, y + 2 * theme.line_h, theme, 2, "Password", WifiField::Password);
        // Row 3: remote peer endpoint.
        self.draw_field(ops, width, y + 3 * theme.line_h, theme, 3, "Remote endpoint", WifiField::Peer);
        // Row 4: remote protocol (TCP/UDP).
        let proto = match self.peer_proto {
            PeerProtocol::Tcp => "TCP",
            PeerProtocol::Udp => "UDP",
        };
        let line = concat("Remote protocol: ", proto);
        draw_row(ops, 0, y + 4 * theme.line_h, line.as_str(), width, self.state.selected == 4, theme.text, theme);
        // Row 5: save & restart.
        draw_row(
            ops,
            0,
            y + 5 * theme.line_h,
            "Save & restart",
            width,
            self.state.selected == 5,
            theme.text,
            theme,
        );
        assert(ops_view(ops@) =~= start + wifi_rows_ops(self@, y as int, width, *theme));
    }

    /// Draw the WiFi menu into a `width`×`height` frame, first seeding it
    /// from the configuration (see [`SettingsWifiScreen::seed`]).
    pub fn render(&mut self, ctx: &ViewContext, width: i32, height: i32, theme: &Theme) -> (ops: Vec<DrawOp>)
        requires
            theme.wf(),
            0 <= width <= EXTENT_MAX,
            0 <= height <= EXTENT_MAX,
        ensures
            final(self)@ == wifi_seeded(
                old(self)@,
                ctx.network.wifi_enabled,
                ctx.wifi_ssid@,
                ctx.peer_addr@,
                ctx.peer_proto,
            ),
            ops_view(ops@) == wifi_scene(
                final(self)@,
                ctx.network,
                ctx.wifi_ssid@,
                ctx.notice@,
                ctx.identity_hex@,
                width,
                height,
                *theme,
            ),
    {
        // Seed the SSID from the current config so saving without retyping
        // does not wipe it.
        self.seed(ctx.network.wifi_enabled, ctx.wifi_ssid, ctx.peer_addr, ctx.peer_proto);
        let mut ops: Vec<DrawOp> = Vec::new();
        draw_header(&mut ops, width, "WiFi", "", &ctx.network, theme);
        let mut y = theme.line_h;
        // Current configuration / status.
        let status = status_line(self.enabled, ctx.wifi_ssid);
        draw_text(&mut ops, 0, y, status.as_str(), theme.text_dim);
        y = y + theme.line_h;
        let link = if ctx.network.wifi_connected {
            "Link: connected"
        } else {
            "Link: not connected"
        };
        draw_text(&mut ops, 0, y, link, theme.text_dim);
        y = y + theme.line_h + 4;
        self.draw_rows(&mut ops, width, y, theme);
        y = y + 6 * theme.line_h;
        if ctx.notice.unicode_len() != 0 {
            y = y + theme.line_h;
            draw_text(&mut ops, 0, y, ctx.notice, theme.ok);
        }
        let short = truncate(ctx.identity_hex, 12);
        draw_bar(
            &mut ops,
            0,
            height - theme.line_h,
            px_of(width),
            px_of(theme.line_h),
            "ALT+Backspace back",
            short.as_str(),
            theme.surface,
            theme.text_dim,
            theme,
        );
        assert(ops_view(ops@) =~= wifi_scene(
            self@,
            ctx.network,
            ctx.wifi_ssid@,
            ctx.notice@,
            ctx.identity_hex@,
            width,
            height,
            *theme,
        ));
        ops
    }

    pub fn new() -> (r: Self)
        ensures
            r@ == (WifiView {
                state: ListState { selected: 0, scroll: 0 },
                enabled: false,
                editing: None,
                ssid_input: Seq::empty(),
                pass_input: Seq::empty(),
                peer_input: Seq::empty(),
                peer_proto: PeerProtocol::Tcp,
                seeded: false,
            }),
    {
        SettingsWifiScreen {
            state: ListState { selected: 0, scroll: 0 },
            enabled: false,
            editing: None,
            ssid_input: String::new(),
            pass_input: String::new(),
            peer_input: String::new(),
            peer_proto: PeerProtocol::Tcp,
            seeded: false,
        }
    }

    /// Whether WiFi is set to be enabled.
    pub fn enabled(&self) -> (r: bool)
        ensures
            r == self@.enabled,
    {
        self.enabled
    }

    /// The field being edited, if any.
    pub fn editing(&self) -> (r: Option<WifiField>)
        ensures
            r == self@.editing,
    {
        self.editing
    }

    /// The protocol used to reach the remote peer.
    pub fn peer_proto(&self) -> (r: PeerProtocol)
        ensures
            r == self@.peer_proto,
    {
        self.peer_proto
    }

    /// The text typed for field `f`.
    pub fn input(&self, f: WifiField) -> (r: &str)
        ensures
            r@ == wifi_input(self@, f),
    {
        match f {
            WifiField::Ssid => self.ssid_input.as_str(),
            WifiField::Password => self.pass_input.as_str(),
            WifiField::Peer => self.peer_input.as_str(),
        }
    }

    /// The text shown for field `f` (see [`field_text`]).
    pub fn shown(&self, f: WifiField) -> (r: String)
        ensures
            r@ == field_text(f, wifi_input(self@, f), self@.editing == Some(f)),
    {
        let value = self.input(f);
        let editing = match self.editing {
            Some(e) => e == f,
            None => false,
        };
        if editing {
            string_of(&chars_of(value))
        } else if f == WifiField::Password && !value.is_empty() {
            mask_password(value)
        } else if value.is_empty() {
            if f == WifiField::Password {
                string_of(&chars_of("••••"))
            } else {
                string_of(&chars_of("(none)"))
            }
        } else {
            string_of(&chars_of(value))
        }
    }

    /// Fill the toggle, SSID and peer from the current configuration, once.
    pub fn seed(&mut self, enabled: bool, ssid: &str, peer_addr: &str, peer_proto: PeerProtocol)
        ensures
            final(self)@ == if old(self)@.seeded {
                old(self)@
            } else {
                WifiView {
                    seeded: true,
                    enabled,
                    ssid_input: ssid@,
                    peer_input: peer_addr@,
                    peer_proto,
                    ..old(self)@
                }
            },
    {
        if !self.seeded {
            self.seeded = true;
            self.enabled = enabled;
            self.ssid_input = string_of(&chars_of(ssid));
            self.peer_input = string_of(&chars_of(peer_addr));
            self.peer_proto = peer_proto;
        }
    }

    /// Whether [`SettingsWifiScreen::handle_key`] can take `key` now.
    pub fn accepts(&self, key: KeyCode) -> (r: bool)
        ensures
            r == wifi_key_ok(self@, key),
    {
        self.editing.is_some() || key != KeyCode::Down || self.state.selected < usize::MAX
    }

    fn push_input(&mut self, f: WifiField, c: char)
        ensures
            final(self)@ == with_wifi_input(old(self)@, f, wifi_input(old(self)@, f).push(c)),
    {
        match f {
            WifiField::Ssid => string_push(&mut self.ssid_input, c),
            WifiField::Password => string_push(&mut self.pass_input, c),
            WifiField::Peer => string_push(&mut self.peer_input, c),
        }
    }

    fn pop_input(&mut self, f: WifiField)
        ensures
            final(self)@ == with_wifi_input(old(self)@, f, drop_last_char(wifi_input(old(self)@, f))),
    {
        match f {
            WifiField::Ssid => {
                string_pop(&mut self.ssid_input);
            },
            WifiField::Password => {
                string_pop(&mut self.pass_input);
            },
            WifiField::Peer => {
                string_pop(&mut self.peer_input);
            },
        }
    }

    /// While editing a field: ASCII characters and Space type, Backspace
    /// deletes, Enter or Esc ends editing. Otherwise Up/Down move; Enter
    /// toggles WiFi, edits a field, switches the protocol or saves; Esc
    /// goes back.
    pub fn handle_key(&mut self, key: KeyCode) -> (r: Command)
        requires
            wifi_key_ok(old(self)@, key),
        ensures
            (final(self)@, r@) == wifi_key(old(self)@, key),
    {
        if let Some(field) = self.editing {
            return match key {
                KeyCode::Char(c) => {
                    if (c as u32) < 0x80 {
                        self.push_input(field, c);
                    }
                    Command::NoOp
                },
                KeyCode::Space => {
                    self.push_input(field, ' ');
                    Command::NoOp
                },
                KeyCode::Backspace => {
                    self.pop_input(field);
                    Command::NoOp
                },
                KeyCode::Enter | KeyCode::Esc => {
                    self.editing = None;
                    Command::NoOp
                },
                _ => Command::NoOp,
            };
        }
        match key {
            KeyCode::Up => {
                self.state.move_up();
                Command::NoOp
            },
            KeyCode::Down => {
                self.state.move_down(WIFI_ITEMS);
                Command::NoOp
            },
            KeyCode::Enter => match self.state.selected {
                0 => {
                    self.enabled = !self.enabled;
                    Command::NoOp
                },
                1 => {
                    self.editing = Some(WifiField::Ssid);
                    Command::NoOp
                },
                2 => {
                    self.editing = Some(WifiField::Password);
                    Command::NoOp
                },
                3 => {
                    self.editing = Some(WifiField::Peer);
                    Command::NoOp
                },
                4 => {
                    self.peer_proto = match self.peer_proto {
                        PeerProtocol::Tcp => PeerProtocol::Udp,
                        PeerProtocol::Udp => PeerProtocol::Tcp,
                    };
                    Command::NoOp
                },
                _ => Command::SaveWifi(
                    WifiSettings {
                        enabled: self.enabled,
                        ssid: trim_string(self.ssid_input.as_str()),
                        password: self.pass_input.clone(),
                        peer_addr: trim_string(self.peer_input.as_str()),
                        peer_proto: self.peer_proto,
                    },
                ),
            },
            KeyCode::Esc => Command::Back,
            _ => Command::NoOp,
        }
    }
}

} // verus!
