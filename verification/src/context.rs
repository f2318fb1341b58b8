//! View data handed from the application to the screens.

use vstd::prelude::*;

use crate::command::{LoraSettings, PeerProtocol};
use crate::page::Page;

verus! {

/// A conversation in the chat list.
#[derive(Debug, Clone, Default)]
pub struct Conversation {
    /// Peer LXMF address hash.
    pub peer: [u8; 16],
    /// Peer address hash as hex (for display).
    pub peer_hex: String,
    /// Peer display name, if known (e.g. from its LXMF announce).
    pub peer_name: String,
    /// Text of the most recent message in this conversation.
    pub last_content: String,
    /// Title of the most recent message, if any.
    pub last_title: String,
    /// Number of unread inbound messages.
    pub unread: u32,
    /// Timestamp of the most recent message, in milliseconds since the Unix
    /// epoch.
    pub last_ts_ms: u64,
}

/// A single message shown in an open chat.
#[derive(Debug, Clone, Default)]
pub struct ChatMessage {
    /// True if the message was received (as opposed to sent).
    pub incoming: bool,
    pub title: String,
    pub content: String,
    /// Timestamp in milliseconds since the Unix epoch.
    pub ts_ms: u64,
}

/// A discovered NomadNet node.
#[derive(Debug, Clone, Default)]
pub struct NodeEntry {
    /// Node destination address hash.
    pub address: [u8; 16],
    /// Node address hash as hex (for display).
    pub hex: String,
    /// Node name from its announce, if any.
    pub name: String,
}

/// Global network / device state shown in headers and status bars.
#[derive(Debug, Clone, Copy, Default)]
pub struct NetworkState {
    /// True once the Reticulum transport is up and connected.
    pub connected: bool,
    /// Milliseconds since boot.
    pub uptime_ms: u64,
    /// Number of currently open peer links.
    pub peer_links: u32,
    /// Whether the WiFi link is up.
    pub wifi_connected: bool,
    /// Whether the WiFi interface is enabled in the configuration.
    pub wifi_enabled: bool,
    /// WiFi RSSI in dBm, when the board has WiFi.
    pub wifi_rssi: Option<i8>,
    /// Whether the LoRa radio interface is online. `None` when not configured.
    pub lora_online: Option<bool>,
}

/// Abstract value of a [`Conversation`].
pub struct ConversationModel {
    pub peer: [u8; 16],
    pub peer_hex: Seq<char>,
    pub peer_name: Seq<char>,
    pub last_content: Seq<char>,
    pub last_title: Seq<char>,
    pub unread: u32,
    pub last_ts_ms: u64,
}

impl View for Conversation {
    type V = ConversationModel;

    open spec fn view(&self) -> ConversationModel {
        ConversationModel {
            peer: self.peer,
            peer_hex: self.peer_hex@,
            peer_name: self.peer_name@,
            last_content: self.last_content@,
            last_title: self.last_title@,
            unread: self.unread,
            last_ts_ms: self.last_ts_ms,
        }
    }
}

/// Abstract value of a [`ChatMessage`].
pub struct ChatMessageModel {
    pub incoming: bool,
    pub title: Seq<char>,
    pub content: Seq<char>,
    pub ts_ms: u64,
}

impl View for ChatMessage {
    type V = ChatMessageModel;

    open spec fn view(&self) -> ChatMessageModel {
        ChatMessageModel {
            incoming: self.incoming,
            title: self.title@,
            content: self.content@,
            ts_ms: self.ts_ms,
        }
    }
}

/// Abstract value of a [`NodeEntry`].
pub struct NodeModel {
    pub address: [u8; 16],
    pub hex: Seq<char>,
    pub name: Seq<char>,
}

impl View for NodeEntry {
    type V = NodeModel;

    open spec fn view(&self) -> NodeModel {
        NodeModel { address: self.address, hex: self.hex@, name: self.name@ }
    }
}

/// Immutable snapshot of application state for one rendered frame.
///
/// The application builds this cheaply each frame (borrowing from its own
/// shared state) and passes it to the active screen's render method.
#[derive(Debug, Clone, Copy)]
pub struct ViewContext<'a> {
    pub conversations: &'a [Conversation],
    pub messages: &'a [ChatMessage],
    pub nodes: &'a [NodeEntry],
    /// The last fetched NomadNet page, if any.
    pub page: Option<&'a Page>,
    /// Node the currently shown page came from.
    pub page_node: Option<&'a NodeEntry>,
    /// Loading/error message while no page is available yet.
    pub page_notice: &'a str,
    /// Our LXMF address hash as hex.
    pub identity_hex: &'a str,
    /// Our configured display name.
    pub display_name: &'a str,
    /// A transient notice shown on the settings screens.
    pub notice: &'a str,
    /// The configured WiFi network name.
    pub wifi_ssid: &'a str,
    /// The configured remote Reticulum peer (`host:port`).
    pub peer_addr: &'a str,
    /// Protocol of the remote peer.
    pub peer_proto: PeerProtocol,
    /// The current LoRa radio settings, when known.
    pub lora_settings: Option<LoraSettings>,
    pub network: NetworkState,
}

} // verus!
