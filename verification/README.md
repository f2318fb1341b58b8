# Reticula

A Reticulum end client for small devices: LXMF chat and a NomadNet page
browser with a keyboard-driven UI. The core of the client is a Verus-verified
library; a desktop simulator runs it in a terminal.

## Layout

- `src/` — the verified library.
  - `page.rs` — the Micron page renderer (NomadNet pages to display lines and links).
  - `lxmf/` — the LXMF wire format (`message.rs`), the bounded message store
    (`store.rs`), the client's receive and announce logic (`client.rs`) and the
    trusted bindings to MessagePack, SHA-256, Ed25519 and the Reticulum SDK
    (`wire.rs`).
  - `destination.rs`, `nomad.rs`, `identity.rs` — destination addresses,
    NomadNet discovery and page responses, the stored identity.
  - `screens/`, `app.rs` — per-screen state, key handling and layout, and the
    application's decisions (screen stack, commands to actions).
  - `scene.rs`, `widgets.rs`, `theme.rs` — a frame as a list of drawing
    operations, the text layout and drawing helpers, the colour theme.
  - `framebuffer.rs` — the framebuffer (pixels, clipped fills) and its
    terminal rendering, which turns 6×10 font cells back into characters.
  - `panel.rs` — the T-Deck panel's offscreen frame, pushed only when it
    changed.
  - `view_model.rs` — the conversation list and chat view built from the store.
  - `tdeck.rs`, `host.rs`, `input.rs` — keyboard matrix and trackball decoding,
    terminal key mapping and the simulator's key queue.
  - `args.rs`, `config.rs` — start-up options and network configuration.
- `tests/` — tests of the library.
- `app/` — the desktop simulator: terminal board, network clients on the
  Reticulum transport, and the UI loop that performs the library's actions and
  paints its frames.
