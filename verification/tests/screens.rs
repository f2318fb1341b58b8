//! Screen key handling and the conversation filter.

use reticula::command::{Command, LoraSettings, PeerProtocol, ScreenId};
use reticula::context::{Conversation, NodeEntry};
use reticula::input::KeyCode;
use reticula::page::Page;
use reticula::screens::chat::{hex_prefix, ChatScreen};
use reticula::screens::chat_list::ChatListScreen;
use reticula::screens::filter::filter_matches;
use reticula::screens::home::HomeScreen;
use reticula::screens::new_chat::{parse_address, NewChatScreen};
use reticula::screens::nomad_list::NomadListScreen;
use reticula::screens::nomad_view::{hex, parse_link_target, NomadViewScreen};
use reticula::screens::settings::SettingsScreen;
use reticula::screens::settings_identity::SettingsIdentityScreen;
use reticula::screens::settings_lora::{parse, LoraField, SettingsLoraScreen};
use reticula::screens::settings_wifi::{mask_password, status_line, SettingsWifiScreen, WifiField};
use reticula::screens::Screen;
use reticula::page::Link;

fn conv(name: &str, hex: &str) -> Conversation {
    Conversation {
        peer: [0u8; 16],
        peer_hex: hex.to_string(),
        peer_name: name.to_string(),
        ..Default::default()
    }
}

#[test]
fn empty_filter_matches_everything() {
    assert!(filter_matches(&conv("", "aabbccdd"), ""));
}

#[test]
fn matches_name_case_insensitively() {
    assert!(filter_matches(&conv("Pepper", "aabbccdd"), "pep"));
    assert!(filter_matches(&conv("Pepper", "aabbccdd"), "PEPPER"));
    assert!(!filter_matches(&conv("Pepper", "aabbccdd"), "zeno"));
}

#[test]
fn matches_address_prefix() {
    assert!(filter_matches(&conv("", "aabbccddeeff00112233445566778899"), "aabb"));
}

#[test]
fn matches_address_case_insensitively() {
    assert!(filter_matches(&conv("", "AABBCCDD"), "aabb"));
    assert!(filter_matches(&conv("", "aabbccdd"), "CCDD"));
    assert!(!filter_matches(&conv("", "aabbccdd"), "ee"));
}

#[test]
fn home_menu_opens_entries() {
    let mut h = HomeScreen::new();
    assert_eq!(h.handle_key(KeyCode::Enter), Command::ShowScreen(ScreenId::ChatList));
    h.handle_key(KeyCode::Down);
    assert_eq!(h.handle_key(KeyCode::Enter), Command::ShowScreen(ScreenId::NomadList));
    h.handle_key(KeyCode::Down);
    h.handle_key(KeyCode::Down);
    assert_eq!(h.handle_key(KeyCode::Enter), Command::ShowScreen(ScreenId::Settings));
    assert_eq!(h.handle_key(KeyCode::Esc), Command::Back);
}

#[test]
fn settings_menu_opens_sub_menus() {
    let mut s = SettingsScreen::new();
    assert_eq!(s.handle_key(KeyCode::Enter), Command::ShowScreen(ScreenId::SettingsIdentity));
    s.handle_key(KeyCode::Down);
    s.handle_key(KeyCode::Down);
    s.handle_key(KeyCode::Down);
    assert_eq!(s.handle_key(KeyCode::Enter), Command::Announce);
}

#[test]
fn chat_list_typing_filters_and_new_row_opens_new_chat() {
    let mut c = ChatListScreen::new();
    assert_eq!(c.handle_key(KeyCode::Enter), Command::ShowScreen(ScreenId::NewChat));
    let convs = vec![conv("Alice", "aa"), conv("Bob", "bb")];
    let shown = c.sync(&convs);
    assert_eq!(shown, vec![0, 1]);
    assert_eq!(c.item_count(), 3);
    c.handle_key(KeyCode::Char('b'));
    assert_eq!(c.filter(), "b");
    let shown = c.sync(&convs);
    assert_eq!(shown, vec![1]);
    assert_eq!(c.handle_key(KeyCode::Enter), Command::StartChat([0u8; 16]));
}

#[test]
fn chat_sends_trimmed_text_and_clears_input() {
    let peer = [4u8; 16];
    let mut c = ChatScreen::new(peer);
    for ch in " hi ".chars() {
        let k = if ch == ' ' { KeyCode::Space } else { KeyCode::Char(ch) };
        c.handle_key(k);
    }
    assert_eq!(c.handle_key(KeyCode::Enter), Command::SendMessage { peer, text: "hi".to_string() });
    assert!(c.input().is_empty());
    assert_eq!(c.handle_key(KeyCode::Enter), Command::NoOp);
    assert_eq!(hex_prefix(&[0xab; 16]), "abababab~");
}

#[test]
fn new_chat_parses_addresses() {
    assert_eq!(
        parse_address(" 0x00112233445566778899aabbccddeeff "),
        Ok([0x00, 0x11, 0x22, 0x33, 0x44, 0x55, 0x66, 0x77, 0x88, 0x99, 0xaa, 0xbb, 0xcc, 0xdd, 0xee, 0xff])
    );
    assert_eq!(parse_address("abc"), Err("expected 32 hex chars, got 3".to_string()));
    assert_eq!(
        parse_address("zz112233445566778899aabbccddeeff"),
        Err("invalid hex digit".to_string())
    );
    let mut s = NewChatScreen::new();
    for ch in "0X1f".chars() {
        s.handle_key(KeyCode::Char(ch));
    }
    assert_eq!(s.input, "0x1f");
    assert_eq!(s.handle_key(KeyCode::Enter), Command::NoOp);
    assert_eq!(s.error.as_deref(), Some("expected 32 hex chars, got 2"));
    assert_eq!(s.handle_key(KeyCode::Esc), Command::Back);
}

#[test]
fn nomad_list_opens_selected_node() {
    let nodes = vec![NodeEntry { address: [7u8; 16], hex: "07".to_string(), name: "News".to_string() }];
    let mut n = NomadListScreen::new();
    assert_eq!(n.handle_key(KeyCode::Enter), Command::NoOp);
    n.sync(&nodes);
    assert_eq!(n.handle_key(KeyCode::Enter), Command::OpenNode([7u8; 16]));
}

#[test]
fn link_targets_parse_to_fetches() {
    let link = Link {
        label: "Next".to_string(),
        target: "rns://0123456789abcdef0123456789abcdef/page2.mu".to_string(),
    };
    match parse_link_target(&link) {
        Some(Command::FetchPage { node: n, path }) => {
            assert_eq!(hex(&n), "0123456789abcdef0123456789abcdef");
            assert_eq!(path, "page2.mu");
        }
        other => panic!("unexpected {other:?}"),
    }
    let short = Link { label: String::new(), target: "rns://0123/x".to_string() };
    assert_eq!(parse_link_target(&short), None);
    let no_path = Link { label: String::new(), target: "rns://0123456789abcdef0123456789abcdef".to_string() };
    assert_eq!(parse_link_target(&no_path), None);
}

#[test]
fn page_view_follows_the_scrolled_link() {
    let page = Page::from_bytes(
        b"`[Next`rns://0123456789abcdef0123456789abcdef/p.mu]\nplain\n",
        "0123456789abcdef0123456789abcdef".to_string(),
    );
    let mut v = NomadViewScreen::new([1u8; 16]);
    assert_eq!(v.handle_key(KeyCode::Enter), Command::NoOp);
    v.sync(Some(&page));
    assert_eq!(v.hint(), "ENTER Next");
    match v.handle_key(KeyCode::Right) {
        Command::FetchPage { path, .. } => assert_eq!(path, "p.mu"),
        other => panic!("unexpected {other:?}"),
    }
    v.handle_key(KeyCode::Down);
    v.sync(Some(&page));
    assert_eq!(v.hint(), "UP/DOWN scroll | ESC back");
    v.handle_key(KeyCode::PageUp);
    assert_eq!(v.scroll(), 7);
    v.handle_key(KeyCode::PageDown);
    v.handle_key(KeyCode::PageDown);
    assert_eq!(v.scroll(), 0);
    assert_eq!(v.title(None), "01010101");
    assert_eq!(v.handle_key(KeyCode::Esc), Command::Back);
}

#[test]
fn identity_menu_edits_the_display_name() {
    let mut s = SettingsIdentityScreen::new();
    assert_eq!(s.handle_key(KeyCode::Enter), Command::NoOp);
    assert!(s.editing);
    for ch in "Al".chars() {
        s.handle_key(KeyCode::Char(ch));
    }
    s.handle_key(KeyCode::Space);
    assert_eq!(s.handle_key(KeyCode::Enter), Command::SetDisplayName("Al".to_string()));
    assert!(!s.editing);
    s.handle_key(KeyCode::Down);
    assert_eq!(s.handle_key(KeyCode::Enter), Command::RegenerateIdentity);
}

#[test]
fn lora_menu_seeds_edits_and_saves() {
    let mut s = SettingsLoraScreen::new();
    s.seed(None);
    assert_eq!(s.input(LoraField::Frequency), "868000");
    assert_eq!(s.settings(), LoraSettings::default());
    // Enter on row 5 edits the TX power: clear it and type -3.
    for _ in 0..5 {
        s.handle_key(KeyCode::Down);
    }
    s.handle_key(KeyCode::Enter);
    assert_eq!(s.editing(), Some(LoraField::TxPower));
    s.handle_key(KeyCode::Backspace);
    s.handle_key(KeyCode::Backspace);
    s.handle_key(KeyCode::Char('-'));
    s.handle_key(KeyCode::Char('3'));
    s.handle_key(KeyCode::Char('x'));
    s.handle_key(KeyCode::Enter);
    assert_eq!(s.input(LoraField::TxPower), "-3");
    s.handle_key(KeyCode::Down);
    match s.handle_key(KeyCode::Enter) {
        Command::SaveLora(l) => assert_eq!(l.tx_power_dbm, -3),
        other => panic!("unexpected {other:?}"),
    }
    assert_eq!(parse(" 42 "), 42);
    assert_eq!(parse("-9223372036854775808"), i64::MIN);
    assert_eq!(parse("9223372036854775808"), 0);
    assert_eq!(parse("+7"), 7);
    assert_eq!(parse("-"), 0);
}

#[test]
fn lora_values_are_clamped() {
    let mut s = SettingsLoraScreen::new();
    s.seed(Some(LoraSettings {
        enabled: true,
        frequency_hz: 10_000,
        bandwidth_hz: 1_000_000,
        spreading_factor: 3,
        coding_rate: 9,
        tx_power_dbm: 30,
    }));
    let l = s.settings();
    assert!(l.enabled);
    assert_eq!(l.frequency_hz, 100_000_000);
    assert_eq!(l.bandwidth_hz, 500_000);
    assert_eq!(l.spreading_factor, 7);
    assert_eq!(l.coding_rate, 8);
    assert_eq!(l.tx_power_dbm, 22);
}

#[test]
fn wifi_menu_saves_trimmed_settings() {
    let mut s = SettingsWifiScreen::new();
    s.seed(true, " home ", "10.0.0.1:4242", PeerProtocol::Tcp);
    s.handle_key(KeyCode::Down);
    s.handle_key(KeyCode::Down);
    s.handle_key(KeyCode::Enter);
    assert_eq!(s.editing(), Some(WifiField::Password));
    for ch in "pw".chars() {
        s.handle_key(KeyCode::Char(ch));
    }
    assert_eq!(s.shown(WifiField::Password), "pw");
    s.handle_key(KeyCode::Enter);
    assert_eq!(s.shown(WifiField::Password), "•w");
    s.handle_key(KeyCode::Down);
    s.handle_key(KeyCode::Down);
    s.handle_key(KeyCode::Enter);
    assert_eq!(s.peer_proto(), PeerProtocol::Udp);
    s.handle_key(KeyCode::Down);
    match s.handle_key(KeyCode::Enter) {
        Command::SaveWifi(w) => {
            assert!(w.enabled);
            assert_eq!(w.ssid, "home");
            assert_eq!(w.password, "pw");
            assert_eq!(w.peer_addr, "10.0.0.1:4242");
            assert_eq!(w.peer_proto, PeerProtocol::Udp);
        }
        other => panic!("unexpected {other:?}"),
    }
    assert_eq!(mask_password(""), "");
    assert_eq!(mask_password("abc"), "••c");
    assert_eq!(status_line(false, "x"), "Network: disabled");
    assert_eq!(status_line(true, "x"), "Network: x");
    assert_eq!(status_line(true, ""), "Network: not configured");
    assert_eq!(SettingsWifiScreen::new().shown(WifiField::Ssid), "(none)");
    assert_eq!(SettingsWifiScreen::new().shown(WifiField::Password), "••••");
}

#[test]
fn screens_report_their_ids_and_input_mode() {
    let s = Screen::Chat(ChatScreen::new([0u8; 16]));
    assert_eq!(s.id(), ScreenId::Chat);
    assert!(s.is_input());
    let mut h = Screen::Home(HomeScreen::new());
    assert_eq!(h.id(), ScreenId::Home);
    assert!(!h.is_input());
    assert!(h.accepts(KeyCode::Down));
    assert_eq!(h.handle_key(KeyCode::Enter), Command::ShowScreen(ScreenId::ChatList));
}
