//! The application's navigation and command handling.

use reticula::app::{Action, AppCore};
use reticula::command::{Command, LoraSettings, PeerProtocol, ScreenId, WifiSettings};
use reticula::input::{KeyCode, KeyEvent, KeyState};

fn app_core(quit_on_root_back: bool) -> AppCore {
    AppCore::new(quit_on_root_back, "Me".to_string(), String::new(), LoraSettings::default())
}

#[test]
fn back_returns_to_the_previous_screen() {
    let mut c = app_core(false);
    assert_eq!(c.execute(Command::ShowScreen(ScreenId::Settings)), Action::Idle);
    assert_eq!(c.screen().id(), ScreenId::Settings);
    c.execute(Command::ShowScreen(ScreenId::SettingsLora));
    c.execute(Command::Back);
    assert_eq!(c.screen().id(), ScreenId::Settings);
    c.execute(Command::Back);
    assert_eq!(c.screen().id(), ScreenId::Home);
    // At the root, Back quits only where the platform allows it.
    c.execute(Command::Back);
    assert!(!c.quit());
    let mut sim = app_core(true);
    sim.execute(Command::Back);
    assert!(sim.quit());
}

#[test]
fn home_clears_the_back_stack() {
    let mut c = app_core(true);
    c.execute(Command::ShowScreen(ScreenId::ChatList));
    c.execute(Command::ShowScreen(ScreenId::NewChat));
    c.execute(Command::ShowScreen(ScreenId::Home));
    assert_eq!(c.screen().id(), ScreenId::Home);
    c.execute(Command::Back);
    assert!(c.quit());
}

#[test]
fn chat_and_node_screens_open_with_context() {
    let mut c = app_core(false);
    let peer = [5u8; 16];
    assert_eq!(c.execute(Command::ShowScreen(ScreenId::Chat)), Action::Idle);
    assert_eq!(c.screen().id(), ScreenId::Home);
    assert_eq!(c.execute(Command::StartChat(peer)), Action::OpenChat(peer));
    assert_eq!(c.screen().id(), ScreenId::Chat);
    assert_eq!(c.active_peer(), Some(peer));
    c.execute(Command::Back);
    assert_eq!(c.active_peer(), None);
    assert_eq!(
        c.execute(Command::OpenNode([6u8; 16])),
        Action::Fetch { node: [6u8; 16], path: "/page/index.mu".to_string() }
    );
    assert_eq!(c.screen().id(), ScreenId::NomadView);
}

#[test]
fn settings_changes_request_a_restart() {
    let mut c = app_core(false);
    let w = WifiSettings {
        enabled: true,
        ssid: "net".to_string(),
        password: "pw".to_string(),
        peer_addr: String::new(),
        peer_proto: PeerProtocol::Tcp,
    };
    assert_eq!(c.execute(Command::SaveWifi(w.clone())), Action::PersistWifi(w));
    assert!(c.restart_requested());
    assert_eq!(c.wifi_ssid(), "net");
    assert_eq!(c.notice(), "WiFi saved. Restarting…");
    let mut c = app_core(false);
    assert_eq!(c.execute(Command::RegenerateIdentity), Action::RegenerateIdentity);
    assert_eq!(c.notice(), "New identity saved. Restarting…");
    let mut c = app_core(false);
    let l = LoraSettings { enabled: true, ..LoraSettings::default() };
    assert_eq!(c.execute(Command::SaveLora(l)), Action::PersistLora(l));
    assert_eq!(c.lora_settings(), l);
    assert_eq!(c.execute(Command::SetDisplayName("Zed".to_string())), Action::SetDisplayName("Zed".to_string()));
    assert_eq!(c.display_name(), "Zed");
}

#[test]
fn modifier_backspace_goes_back() {
    let mut c = app_core(false);
    c.execute(Command::ShowScreen(ScreenId::Settings));
    let press = |code| KeyEvent { code, state: KeyState::Pressed };
    assert!(c.accepts(press(KeyCode::Alt)));
    c.on_key(press(KeyCode::Alt));
    c.on_key(press(KeyCode::Backspace));
    assert_eq!(c.screen().id(), ScreenId::Home);
    c.on_key(KeyEvent { code: KeyCode::Alt, state: KeyState::Released });
    // Without a modifier, Backspace is an ordinary key.
    c.on_key(press(KeyCode::Enter));
    assert_eq!(c.screen().id(), ScreenId::ChatList);
    c.on_key(press(KeyCode::Backspace));
    assert_eq!(c.screen().id(), ScreenId::ChatList);
    c.on_key(press(KeyCode::Esc));
    assert_eq!(c.screen().id(), ScreenId::Home);
}
