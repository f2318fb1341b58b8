//! Network configuration and the application's errors.

use vstd::prelude::*;

verus! {

/// How the device connects to the mesh.
///
/// Reticula is a pure end client: it never acts as a transport, so it only
/// needs outbound connectivity to the mesh, e.g. a UDP peer on the local
/// network or a reachable relay.
#[derive(Debug, Clone)]
pub enum TransportKind {
    /// Bind a UDP interface. `forward` optionally points at a reachable
    /// Reticulum node to peer with.
    Udp {
        /// Local bind address, e.g. `0.0.0.0:5238`.
        bind: String,
        /// Optional remote node to forward to, e.g. `192.168.1.10:5238`.
        forward: Option<String>,
    },
    /// Connect out to a Reticulum TCP server.
    TcpPeer {
        /// Remote server address, e.g. `my-node.example:5242`.
        addr: String,
    },
    /// No network interface (offline / development).
    Offline,
}

/// Full network setup for the application.
#[derive(Debug, Clone)]
pub struct NetConfig {
    pub transport: TransportKind,
    /// How often to re-announce the delivery identity, in seconds.
    pub announce_interval_secs: u64,
    /// Whether pressing back on the home screen exits the application.
    /// True on the desktop simulator, false on a device.
    pub quit_on_root_back: bool,
}

impl Default for NetConfig {
    fn default() -> (r: Self)
        ensures
            r.transport is Offline,
            r.announce_interval_secs == 300,
            !r.quit_on_root_back,
    {
        NetConfig {
            transport: TransportKind::Offline,
            announce_interval_secs: 300,
            quit_on_root_back: false,
        }
    }
}

/// Errors produced by the application.
#[derive(Debug)]
pub enum AppError {
    /// Reticulum transport setup failed.
    Transport(String),
}

impl AppError {
    /// The error as shown to the user.
    pub fn text(&self) -> (r: String)
        ensures
            match self {
                AppError::Transport(e) => r@ == "transport error: "@ + e@,
            },
    {
        match self {
            AppError::Transport(e) => {
                let mut v = crate::text::chars_of("transport error: ");
                crate::text::append_str(&mut v, e.as_str());
                crate::text::string_of(&v)
            },
        }
    }
}

} // verus!
