//! What the screens draw, the text layout helpers, the theme and the
//! terminal framebuffer.

use reticula::command::{LoraSettings, PeerProtocol};
use reticula::context::{ChatMessage, Conversation, NetworkState, NodeEntry, ViewContext};
use reticula::framebuffer::{ansi256, avg_ansi, lum8, Framebuffer, Glyph, CELL_MASK};
use reticula::input::KeyCode;
use reticula::page::Page;
use reticula::scene::DrawOp;
use reticula::screens::chat::ChatScreen;
use reticula::screens::chat_list::ChatListScreen;
use reticula::screens::home::HomeScreen;
use reticula::screens::new_chat::NewChatScreen;
use reticula::screens::nomad_list::NomadListScreen;
use reticula::screens::nomad_view::NomadViewScreen;
use reticula::screens::settings::SettingsScreen;
use reticula::screens::settings_identity::SettingsIdentityScreen;
use reticula::screens::settings_lora::SettingsLoraScreen;
use reticula::screens::settings_wifi::SettingsWifiScreen;
use reticula::screens::Screen;
use reticula::theme::{Color, Theme};
use reticula::widgets::{chars_per_line, lines_fit, truncate, wrap};

fn ctx<'a>(
    conversations: &'a [Conversation],
    messages: &'a [ChatMessage],
    nodes: &'a [NodeEntry],
    page: Option<&'a Page>,
) -> ViewContext<'a> {
    ViewContext {
        conversations,
        messages,
        nodes,
        page,
        page_node: None,
        page_notice: "",
        identity_hex: "00112233445566778899aabbccddeeff",
        display_name: "Alice",
        notice: "",
        wifi_ssid: "",
        peer_addr: "",
        peer_proto: PeerProtocol::Tcp,
        lora_settings: None,
        network: NetworkState::default(),
    }
}

/// The texts of the frame, with their positions, in painting order.
fn texts(ops: &[DrawOp]) -> Vec<(i32, i32, String)> {
    ops.iter()
        .filter_map(|o| match o {
            DrawOp::Text { x, y, text, .. } => Some((*x, *y, text.clone())),
            _ => None,
        })
        .collect()
}

fn has_text(ops: &[DrawOp], s: &str) -> bool {
    texts(ops).iter().any(|(_, _, t)| t == s)
}

fn text_at(ops: &[DrawOp], s: &str) -> Option<(i32, i32)> {
    texts(ops).into_iter().find(|(_, _, t)| t == s).map(|(x, y, _)| (x, y))
}

fn conv(name: &str, hex: &str, content: &str, unread: u32) -> Conversation {
    Conversation {
        peer: [0u8; 16],
        peer_hex: hex.to_string(),
        peer_name: name.to_string(),
        last_content: content.to_string(),
        unread,
        ..Default::default()
    }
}

#[test]
fn wraps_words_and_keeps_line_breaks() {
    assert_eq!(wrap("hello world foo", 11), vec!["hello world", "foo"]);
    assert_eq!(wrap("a\n\nb", 10), vec!["a", "", "b"]);
    assert_eq!(wrap("averyveryverylongword x", 5), vec!["averyveryverylongword", "x"]);
    assert_eq!(wrap("trailing   ", 0), vec!["trailing"]);
}

#[test]
fn truncates_with_a_marker() {
    assert_eq!(truncate("short", 10), "short");
    assert_eq!(truncate("abcdefgh", 5), "abcd~");
    assert_eq!(truncate("abc", 0), "");
    assert_eq!(truncate("abc", 1), "~");
}

#[test]
fn cells_fit_at_least_one() {
    assert_eq!(chars_per_line(320, 6), 53);
    assert_eq!(chars_per_line(3, 6), 1);
    assert_eq!(chars_per_line(-20, 6), 1);
    assert_eq!(lines_fit(240, 10), 24);
    let theme = Theme::default();
    assert_eq!(theme.chars_per_line(100), 16);
    assert_eq!(theme.lines_fit(25), 2);
}

#[test]
fn colors_drop_high_bits() {
    let theme = Theme::default();
    // The selection colour's blue channel (38) does not fit five bits.
    assert_eq!(theme.selection, Color { r: 0, g: 30, b: 6 });
    assert_eq!(Color::new(33, 70, 31), Color { r: 1, g: 6, b: 31 });
    assert_eq!(Color::white(), Color { r: 31, g: 63, b: 31 });
}

#[test]
fn home_menu_highlights_selection() {
    let mut home = HomeScreen::new();
    home.handle_key(KeyCode::Down);
    let ops = home.render(&ctx(&[], &[], &[], None), 320, 240, &Theme::default());
    // Header bar with status, the marker of the highlighted row, footer.
    assert_eq!(text_at(&ops, "RETICULA"), Some((0, 0)));
    assert!(has_text(&ops, "connecting..."));
    assert_eq!(text_at(&ops, "LXMF Chat"), Some((0, 10)));
    assert_eq!(text_at(&ops, ">"), Some((0, 20)));
    assert_eq!(text_at(&ops, "NomadNet"), Some((6, 20)));
    assert_eq!(text_at(&ops, "Settings"), Some((0, 30)));
    assert_eq!(text_at(&ops, "ESC back"), Some((0, 230)));
    // The footer's right label is the start of our address, right-aligned.
    assert_eq!(text_at(&ops, "00112233445~"), Some((320 - 2 - 12 * 6, 230)));
}

#[test]
fn home_menu_scrolls_to_selection() {
    let mut home = HomeScreen::new();
    home.handle_key(KeyCode::Down);
    home.handle_key(KeyCode::Down);
    // Room for a single row between header and footer.
    let ops = home.render(&ctx(&[], &[], &[], None), 320, 30, &Theme::default());
    assert_eq!(home.state.scroll, 2);
    assert!(!has_text(&ops, "LXMF Chat"));
    assert_eq!(text_at(&ops, "Settings"), Some((6, 10)));
}

#[test]
fn settings_menu_numbers_entries_and_shows_status() {
    let screen = SettingsScreen::new();
    let mut c = ctx(&[], &[], &[], None);
    c.network.connected = true;
    c.network.peer_links = 3;
    c.network.uptime_ms = 61_999;
    c.notice = "Saved";
    let ops = screen.render(&c, 320, 240, &Theme::default());
    assert_eq!(text_at(&ops, "Settings"), Some((0, 0)));
    assert_eq!(text_at(&ops, "1. Identity"), Some((6, 10)));
    assert_eq!(text_at(&ops, "4. Re-announce identities"), Some((0, 40)));
    assert_eq!(text_at(&ops, "Network: connected"), Some((0, 60)));
    assert_eq!(text_at(&ops, "Links: 3"), Some((0, 70)));
    assert_eq!(text_at(&ops, "Uptime: 61s"), Some((0, 80)));
    assert_eq!(text_at(&ops, "Saved"), Some((0, 90)));
}

#[test]
fn header_icons_follow_the_links() {
    let screen = SettingsScreen::new();
    let mut c = ctx(&[], &[], &[], None);
    c.network.wifi_connected = true;
    c.network.wifi_rssi = Some(-65);
    c.network.lora_online = Some(true);
    let theme = Theme::default();
    let ops = screen.render(&c, 320, 240, &theme);
    let lora = ops.iter().find_map(|o| match o {
        DrawOp::LoraIcon { x, online, color, .. } => Some((*x, *online, *color)),
        _ => None,
    });
    let wifi = ops.iter().find_map(|o| match o {
        DrawOp::WifiIcon { x, level, color, .. } => Some((*x, *level, *color)),
        _ => None,
    });
    assert_eq!(lora, Some((313, true, theme.ok)));
    assert_eq!(wifi, Some((298, 2, theme.ok)));
}

#[test]
fn chat_list_rows_and_new_message_entry() {
    let convs = vec![
        conv("Bob", "aabbccddeeff00112233445566778899", "hi there", 2),
        conv("", "0011223344556677", "", 0),
    ];
    let mut list = ChatListScreen::new();
    let ops = list.render(&ctx(&convs, &[], &[], None), 320, 240, &Theme::default());
    assert!(has_text(&ops, "2 conv"));
    // The "+ New message" row is selected, so it is drawn highlighted.
    assert_eq!(text_at(&ops, "+ New message"), Some((6, 10)));
    assert_eq!(text_at(&ops, "Bob * hi there"), Some((0, 20)));
    // No name: the first eight hex digits of the address.
    assert_eq!(text_at(&ops, "00112233 "), Some((0, 30)));
    assert_eq!(list.item_count(), 3);
}

#[test]
fn chat_list_filter_shows_matches_only() {
    let convs = vec![
        conv("Bob", "aabbccdd00000000", "hi", 0),
        conv("Carol", "ccddeeff00000000", "yo", 0),
    ];
    let mut list = ChatListScreen::new();
    for c in "car".chars() {
        list.handle_key(KeyCode::Char(c));
    }
    let ops = list.render(&ctx(&convs, &[], &[], None), 320, 240, &Theme::default());
    assert_eq!(text_at(&ops, "> car"), Some((0, 10)));
    assert!(!has_text(&ops, "+ New message"));
    assert_eq!(text_at(&ops, "Carol yo"), Some((6, 20)));
    assert!(!has_text(&ops, "Bob hi"));

    list.handle_key(KeyCode::Char('z'));
    let ops = list.render(&ctx(&convs, &[], &[], None), 320, 240, &Theme::default());
    assert_eq!(text_at(&ops, "No matches."), Some((0, 20)));
}

#[test]
fn chat_list_selection_clamped_on_render_opens_last_row() {
    let mut many = Vec::new();
    for i in 0..6u8 {
        let mut c = conv("P", "00", "m", 0);
        c.peer = [i + 1; 16];
        many.push(c);
    }
    let mut list = ChatListScreen::new();
    list.render(&ctx(&many, &[], &[], None), 320, 240, &Theme::default());
    for _ in 0..5 {
        list.handle_key(KeyCode::Down);
    }
    assert_eq!(list.state().selected, 5);
    let few = vec![many[0].clone(), many[1].clone()];
    list.render(&ctx(&few, &[], &[], None), 320, 240, &Theme::default());
    assert_eq!(list.state().selected, 2);
    assert_eq!(list.handle_key(KeyCode::Enter), reticula::command::Command::StartChat([2u8; 16]));
}

#[test]
fn nomad_list_lists_nodes_or_explains() {
    let mut list = NomadListScreen::new();
    let ops = list.render(&ctx(&[], &[], &[], None), 320, 240, &Theme::default());
    assert!(has_text(&ops, "0 nodes"));
    assert_eq!(text_at(&ops, "No nodes discovered yet."), Some((0, 10)));
    assert_eq!(text_at(&ops, "Make sure the mesh is within reach."), Some((0, 20)));

    let nodes = vec![
        NodeEntry { address: [1u8; 16], hex: "0101".to_string(), name: String::new() },
        NodeEntry { address: [2u8; 16], hex: "0202".to_string(), name: "Hub".to_string() },
    ];
    let ops = list.render(&ctx(&[], &[], &nodes, None), 320, 240, &Theme::default());
    assert_eq!(text_at(&ops, "0101"), Some((6, 10)));
    assert_eq!(text_at(&ops, "Hub"), Some((0, 20)));
}

#[test]
fn scrollbar_only_when_rows_overflow() {
    let nodes: Vec<NodeEntry> = (0..30u8)
        .map(|i| NodeEntry { address: [i; 16], hex: format!("{i:02x}"), name: String::new() })
        .collect();
    let mut list = NomadListScreen::new();
    let bar = |ops: &[DrawOp]| {
        ops.iter().any(|o| matches!(o, DrawOp::Scrollbar { total: 30, .. }))
    };
    let ops = list.render(&ctx(&[], &[], &nodes, None), 320, 240, &Theme::default());
    assert!(bar(&ops));
    let ops = list.render(&ctx(&[], &[], &nodes[..3], None), 320, 240, &Theme::default());
    assert!(!ops.iter().any(|o| matches!(o, DrawOp::Scrollbar { .. })));
}

#[test]
fn page_view_without_page_shows_notice() {
    let mut view = NomadViewScreen::new([0xabu8; 16]);
    let mut c = ctx(&[], &[], &[], None);
    let ops = view.render(&c, 320, 240, &Theme::default());
    assert_eq!(text_at(&ops, "abababab"), Some((0, 0)));
    assert_eq!(text_at(&ops, "No page loaded."), Some((0, 10)));
    c.page_notice = "Fetching /page/index.mu…";
    let ops = view.render(&c, 320, 240, &Theme::default());
    assert!(has_text(&ops, "Fetching /page/index.mu…"));
}

#[test]
fn page_view_shows_lines_and_link_hint() {
    let page = Page::from_bytes(b"Hello\nSee `[Docs`/page/docs.mu]\n", "node".to_string());
    let mut view = NomadViewScreen::new([0u8; 16]);
    let node = NodeEntry { address: [0u8; 16], hex: String::new(), name: "Library".to_string() };
    let mut c = ctx(&[], &[], &[], Some(&page));
    c.page_node = Some(&node);
    let ops = view.render(&c, 320, 240, &Theme::default());
    assert_eq!(text_at(&ops, "Library"), Some((0, 0)));
    assert_eq!(text_at(&ops, "Hello"), Some((0, 10)));
    assert!(has_text(&ops, "UP/DOWN scroll | ESC back"));
    // Scrolled onto the link line, the footer offers the link.
    view.handle_key(KeyCode::Down);
    let ops = view.render(&c, 320, 240, &Theme::default());
    assert!(has_text(&ops, "ENTER Docs"));
    // The page body is black, with white text.
    assert!(ops.iter().any(|o| matches!(
        o,
        DrawOp::Fill { x: 0, y: 10, w: 320, h: 220, color } if *color == Color::black()
    )));
}

#[test]
fn chat_shows_messages_composer_and_status() {
    let convs = vec![Conversation { peer: [5u8; 16], peer_name: "Dana".to_string(), ..Default::default() }];
    let msgs = vec![
        ChatMessage { incoming: true, content: "hi".to_string(), ..Default::default() },
        ChatMessage { incoming: false, content: "hello back".to_string(), ..Default::default() },
    ];
    let mut chat = ChatScreen::new([5u8; 16]);
    let c = ctx(&convs, &msgs, &[], None);
    let ops = chat.render(&c, 320, 240, &Theme::default());
    assert_eq!(text_at(&ops, "Dana"), Some((0, 0)));
    assert_eq!(text_at(&ops, "< hi"), Some((0, 10)));
    // A blank spacer row separates messages.
    assert_eq!(text_at(&ops, "> hello back"), Some((0, 30)));
    assert_eq!(text_at(&ops, "Type a message..."), Some((12, 230)));
    assert_eq!(text_at(&ops, "ENTER send | PgUp/PgDn scroll"), Some((0, 220)));
    // Blinking cursor at uptime 0, right after the prompt.
    assert!(ops.iter().any(|o| matches!(o, DrawOp::Fill { x: 12, y: 230, w: 6, h: 10, .. })));
}

#[test]
fn chat_title_falls_back_to_address() {
    let mut chat = ChatScreen::new([0xde, 0xad, 0xbe, 0xef, 0, 0, 0, 0, 0, 0, 0, 0, 0, 0, 0, 0]);
    let ops = chat.render(&ctx(&[], &[], &[], None), 320, 240, &Theme::default());
    assert_eq!(text_at(&ops, "deadbeef~"), Some((0, 0)));
}

#[test]
fn chat_follows_newest_rows() {
    let msgs: Vec<ChatMessage> = (0..30)
        .map(|i| ChatMessage { incoming: true, content: format!("m{i}"), ..Default::default() })
        .collect();
    let mut chat = ChatScreen::new([1u8; 16]);
    let ops = chat.render(&ctx(&[], &msgs, &[], None), 320, 240, &Theme::default());
    // 59 rows (messages and spacers) in a body of 21: the last 21 are shown.
    assert_eq!(chat.scroll(), 38);
    assert!(has_text(&ops, "< m29"));
    assert!(!has_text(&ops, "< m0"));
}

#[test]
fn new_chat_prompt_and_error() {
    let mut screen = NewChatScreen::new();
    let ops = screen.render(&ctx(&[], &[], &[], None), 320, &Theme::default());
    assert!(has_text(&ops, "e.g. 00112233445566778899aabbccddeeff"));
    assert_eq!(text_at(&ops, "ENTER to start chat | ESC back"), Some((0, 40)));
    screen.handle_key(KeyCode::Char('a'));
    screen.handle_key(KeyCode::Enter);
    let ops = screen.render(&ctx(&[], &[], &[], None), 320, &Theme::default());
    assert_eq!(text_at(&ops, "a"), Some((0, 20)));
    assert_eq!(text_at(&ops, "expected 32 hex chars, got 1"), Some((0, 40)));
    assert_eq!(text_at(&ops, "ENTER to start chat | ESC back"), Some((0, 50)));
}

#[test]
fn identity_menu_wraps_address() {
    let screen = SettingsIdentityScreen::new();
    let mut c = ctx(&[], &[], &[], None);
    c.identity_hex = "0123456789abcdef0123456789abcdef";
    // 72 px wide: 11 characters per address line.
    let ops = screen.render(&c, 72, 240, &Theme::default());
    assert_eq!(text_at(&ops, "Name: Alice"), Some((6, 10)));
    assert_eq!(text_at(&ops, "Regenerate identity"), Some((0, 20)));
    assert_eq!(text_at(&ops, "LXMF address:"), Some((0, 60)));
    assert_eq!(text_at(&ops, "0123456789abcdef0123456789abcdef"), Some((0, 70)));
}

#[test]
fn wifi_menu_seeds_and_masks() {
    let mut screen = SettingsWifiScreen::new();
    let mut c = ctx(&[], &[], &[], None);
    c.network.wifi_enabled = true;
    c.wifi_ssid = "home";
    c.peer_addr = "10.0.0.1:4242";
    c.peer_proto = PeerProtocol::Udp;
    let ops = screen.render(&c, 320, 240, &Theme::default());
    assert_eq!(text_at(&ops, "Network: home"), Some((0, 10)));
    assert_eq!(text_at(&ops, "Link: not connected"), Some((0, 20)));
    assert_eq!(text_at(&ops, "Enabled: on"), Some((6, 34)));
    assert_eq!(text_at(&ops, "SSID: home"), Some((0, 44)));
    assert_eq!(text_at(&ops, "Password: ••••"), Some((0, 54)));
    assert_eq!(text_at(&ops, "Remote endpoint: 10.0.0.1:4242"), Some((0, 64)));
    assert_eq!(text_at(&ops, "Remote protocol: UDP"), Some((0, 74)));
    assert_eq!(text_at(&ops, "Save & restart"), Some((0, 84)));
}

#[test]
fn lora_menu_seeds_from_settings() {
    let mut screen = SettingsLoraScreen::new();
    let mut c = ctx(&[], &[], &[], None);
    c.lora_settings = Some(LoraSettings { enabled: true, ..LoraSettings::default() });
    let ops = screen.render(&c, 320, 240, &Theme::default());
    assert_eq!(text_at(&ops, "Radio: enabled"), Some((0, 10)));
    assert_eq!(text_at(&ops, "Enabled: on"), Some((6, 24)));
    assert_eq!(text_at(&ops, "Frequency (kHz): 868000"), Some((0, 34)));
    assert_eq!(text_at(&ops, "Bandwidth (kHz): 125"), Some((0, 44)));
    assert_eq!(text_at(&ops, "TX power (dBm): 14"), Some((0, 74)));
    assert_eq!(text_at(&ops, "Save & restart"), Some((0, 84)));
}

#[test]
fn screen_render_clears_first() {
    let mut screen = Screen::Home(HomeScreen::new());
    let c = ctx(&[], &[], &[], None);
    assert!(screen.can_render(&c, 320, 240));
    let theme = Theme::default();
    let ops = screen.render(&c, 320, 240, &theme);
    assert!(matches!(ops[0], DrawOp::Clear { color } if color == theme.background));
    assert!(has_text(&ops, "RETICULA"));
}

#[test]
fn chat_list_refuses_unlabelable_rows() {
    let convs = vec![conv("", "abc", "", 0)];
    let screen = Screen::ChatList(ChatListScreen::new());
    assert!(!screen.can_render(&ctx(&convs, &[], &[], None), 320, 240));
    let narrow = Screen::Chat(ChatScreen::new([0u8; 16]));
    assert!(!narrow.can_render(&ctx(&[], &[], &[], None), 19, 240));
    assert!(narrow.can_render(&ctx(&[], &[], &[], None), 20, 240));
}

#[test]
fn luminance_and_palette() {
    let white = Color::white();
    let black = Color::black();
    assert_eq!(lum8(white), 255);
    assert_eq!(lum8(black), 0);
    assert_eq!(ansi256(0, 0, 0), 16);
    assert_eq!(ansi256(255, 255, 255), 231);
    assert_eq!(ansi256(255, 0, 0), 196);
    assert_eq!(avg_ansi(510, 0, 0, 2), 196);
    assert_eq!(avg_ansi(0, 0, 0, 0), 16);
}

/// A glyph that inks the left column of its cell.
fn bar_glyph() -> Glyph {
    let mut bits = 0u64;
    for y in 0..10 {
        bits |= 1 << (y * 6);
    }
    Glyph { ch: '|', bits }
}

#[test]
fn framebuffer_put_clear_and_bounds() {
    let mut fb = Framebuffer::new(12, 10);
    assert_eq!(fb.pixel(3, 4), Color::black());
    fb.put(3, 4, Color::white());
    fb.put(-1, 0, Color::white());
    fb.put(12, 0, Color::white());
    assert_eq!(fb.pixel(3, 4), Color::white());
    fb.clear(Color::new(1, 2, 3));
    assert_eq!(fb.pixel(3, 4), Color::new(1, 2, 3));
    assert_eq!(fb.pixel(11, 9), Color::new(1, 2, 3));
}

#[test]
fn cells_become_glyphs_blanks_or_ramp() {
    let glyphs = vec![bar_glyph()];
    let mut fb = Framebuffer::new(12, 10);
    // Cell 0: white left column on black -> the glyph, coloured white.
    for y in 0..10 {
        fb.put(0, y, Color::white());
    }
    assert_eq!(fb.render_cell(0, 0, &glyphs), ('|', 231));
    // Cell 1: solid black -> blank.
    assert_eq!(fb.render_cell(1, 0, &glyphs), (' ', 16));
    // Inverted: black left column on white -> the glyph, coloured black.
    fb.clear(Color::white());
    for y in 0..10 {
        fb.put(6, y, Color::black());
    }
    assert_eq!(fb.render_cell(1, 0, &glyphs), ('|', 16));
    // A pattern matching no glyph falls back to the luminance ramp.
    fb.clear(Color::black());
    fb.put(0, 0, Color::white());
    assert_eq!(fb.render_cell(0, 0, &glyphs).0, ' ');
    assert_ne!(CELL_MASK & 1, 0);
}

#[test]
fn frame_text_is_clipped_to_terminal() {
    let fb = Framebuffer::new(12, 20);
    let text = fb.render_cells(1, 80, &[]);
    assert_eq!(
        text,
        "\x1b[?25l\x1b[1;1H\x1b[38;5;16m \x1b[38;5;16m \x1b[0m"
    );
    assert_eq!(fb.render_cells(0, 80, &[]), "\x1b[?25l");
}
