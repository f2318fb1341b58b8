//! Commands produced by screens for the application to execute.

use vstd::prelude::*;

verus! {

/// Identifiers of the screens in the UI.
#[derive(Debug, Clone, Copy, PartialEq, Eq, Hash, Structural)]
pub enum ScreenId {
    Home,
    ChatList,
    Chat,
    NewChat,
    NomadList,
    NomadView,
    Settings,
    /// Sub-menu: identity info and identity regeneration.
    SettingsIdentity,
    /// Sub-menu: WiFi network SSID / password.
    SettingsWifi,
    /// Sub-menu: LoRa radio configuration.
    SettingsLora,
}

/// LoRa radio configuration, as shown in the Settings → LoRa sub-menu.
///
/// Frequencies/bandwidths are held in Hz; the UI displays and edits the
/// frequency in kHz (e.g. 914875 = 914.875 MHz, so fractional MHz needs no
/// decimal input) and the bandwidth in kHz.
#[derive(Debug, Clone, Copy, PartialEq, Eq, Structural)]
pub struct LoraSettings {
    /// Whether the LoRa interface is enabled.
    pub enabled: bool,
    /// Carrier frequency in Hz.
    pub frequency_hz: u64,
    /// Bandwidth in Hz.
    pub bandwidth_hz: u64,
    /// Spreading factor (7–12).
    pub spreading_factor: u8,
    /// Coding rate denominator (5–8, i.e. 4/5..4/8).
    pub coding_rate: u8,
    /// TX power in dBm.
    pub tx_power_dbm: i8,
}

impl Default for LoraSettings {
    fn default() -> (r: Self)
        ensures
            r == (LoraSettings {
                enabled: false,
                frequency_hz: 868_000_000,
                bandwidth_hz: 125_000,
                spreading_factor: 7,
                coding_rate: 5,
                tx_power_dbm: 14,
            }),
    {
        LoraSettings {
            enabled: false,
            frequency_hz: 868_000_000,
            bandwidth_hz: 125_000,
            spreading_factor: 7,
            coding_rate: 5,
            tx_power_dbm: 14,
        }
    }
}

/// Transport protocol used to reach the remote Reticulum peer.
#[derive(Debug, Clone, Copy, PartialEq, Eq, Structural)]
pub enum PeerProtocol {
    Tcp,
    Udp,
}

impl Default for PeerProtocol {
    fn default() -> (r: Self)
        ensures
            r == PeerProtocol::Tcp,
    {
        PeerProtocol::Tcp
    }
}

/// Network settings edited in the Settings → WiFi sub-menu.
#[derive(Debug, Clone, PartialEq, Eq)]
pub struct WifiSettings {
    /// Whether the WiFi interface is enabled.
    pub enabled: bool,
    /// Network SSID.
    pub ssid: String,
    /// Network password.
    pub password: String,
    /// `host:port` of the remote Reticulum peer.
    pub peer_addr: String,
    /// Protocol used to reach the remote peer.
    pub peer_proto: PeerProtocol,
}

/// An action the UI asks the application to perform.
#[derive(Debug, Clone, PartialEq)]
pub enum Command {
    /// No action.
    NoOp,
    /// Switch to another screen (pushing onto the back stack).
    ShowScreen(ScreenId),
    /// Start composing a message to the given peer.
    StartChat([u8; 16]),
    /// Send a message to a peer.
    SendMessage { peer: [u8; 16], text: String },
    /// Fetch a page from a NomadNet node.
    FetchPage { node: [u8; 16], path: String },
    /// Open the fetched page view for a node.
    OpenNode([u8; 16]),
    /// Re-announce our identities.
    Announce,
    /// Set a new display name for our LXMF delivery identity.
    SetDisplayName(String),
    /// Generate a brand-new Reticulum identity, persist it, and restart so the
    /// new LXMF address becomes active.
    RegenerateIdentity,
    /// Persist new network settings and restart so the device reconnects.
    SaveWifi(WifiSettings),
    /// Persist new LoRa radio settings and restart so they take effect.
    SaveLora(LoraSettings),
    /// Navigate back in the screen stack.
    Back,
    /// Quit the application (host simulator).
    Quit,
}

/// Abstract value of [`WifiSettings`].
pub struct WifiModel {
    pub enabled: bool,
    pub ssid: Seq<char>,
    pub password: Seq<char>,
    pub peer_addr: Seq<char>,
    pub peer_proto: PeerProtocol,
}

impl View for WifiSettings {
    type V = WifiModel;

    open spec fn view(&self) -> WifiModel {
        WifiModel {
            enabled: self.enabled,
            ssid: self.ssid@,
            password: self.password@,
            peer_addr: self.peer_addr@,
            peer_proto: self.peer_proto,
        }
    }
}

/// Abstract value of a [`Command`]: strings taken by their characters.
pub enum CommandModel {
    NoOp,
    ShowScreen(ScreenId),
    StartChat([u8; 16]),
    SendMessage { peer: [u8; 16], text: Seq<char> },
    FetchPage { node: [u8; 16], path: Seq<char> },
    OpenNode([u8; 16]),
    Announce,
    SetDisplayName(Seq<char>),
    RegenerateIdentity,
    SaveWifi(WifiModel),
    SaveLora(LoraSettings),
    Back,
    Quit,
}

impl View for Command {
    type V = CommandModel;

    open spec fn view(&self) -> CommandModel {
        match self {
            Command::NoOp => CommandModel::NoOp,
            Command::ShowScreen(id) => CommandModel::ShowScreen(*id),
            Command::StartChat(p) => CommandModel::StartChat(*p),
            Command::SendMessage { peer, text } => CommandModel::SendMessage {
                peer: *peer,
                text: text@,
            },
            Command::FetchPage { node, path } => CommandModel::FetchPage {
                node: *node,
                path: path@,
            },
            Command::OpenNode(n) => CommandModel::OpenNode(*n),
            Command::Announce => CommandModel::Announce,
            Command::SetDisplayName(n) => CommandModel::SetDisplayName(n@),
            Command::RegenerateIdentity => CommandModel::RegenerateIdentity,
            Command::SaveWifi(w) => CommandModel::SaveWifi(w@),
            Command::SaveLora(l) => CommandModel::SaveLora(*l),
            Command::Back => CommandModel::Back,
            Command::Quit => CommandModel::Quit,
        }
    }
}

} // verus!
