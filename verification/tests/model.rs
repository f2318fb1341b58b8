//! The conversation list and chat view built from the message store, the
//! contact and node registries, and start-up configuration.

use rmpv::Value;

use reticula::args::{parse_args, parse_freq_hz, parse_size, parse_unsigned};
use reticula::config::{AppError, NetConfig, TransportKind};
use reticula::context::NodeEntry;
use reticula::lxmf::message::LxmfMessage;
use reticula::lxmf::store::{Direction, MessageStore};
use reticula::view_model::{add_contact, add_node, chat_messages, conversation_list};

fn text(dest: [u8; 16], src: [u8; 16], content: &str) -> LxmfMessage {
    let mut m = LxmfMessage::new(dest, src, Value::F64(0.0), Vec::new(), content.as_bytes().to_vec());
    // A message from someone else is one we received.
    m.incoming = src != ME;
    m
}

fn args(v: &[&str]) -> Vec<String> {
    v.iter().map(|s| s.to_string()).collect()
}

const ME: [u8; 16] = [9u8; 16];
const BOB: [u8; 16] = [1u8; 16];
const CAROL: [u8; 16] = [2u8; 16];

#[test]
fn conversations_newest_first_with_unread_counts() {
    let mut store = MessageStore::new(10);
    store.push(text(ME, BOB, "hi"), Direction::Inbound);
    store.push(text(ME, CAROL, "hey"), Direction::Inbound);
    store.push(text(BOB, ME, "hello bob"), Direction::Outbound);
    let ts = [1_000u64, 2_000, 3_000];
    let list = conversation_list(&store, &ts, &[], &[]);
    assert_eq!(list.len(), 2);
    // Bob's conversation has the newest message (our reply).
    assert_eq!(list[0].peer, BOB);
    assert_eq!(list[0].last_content, "hello bob");
    assert_eq!(list[0].last_ts_ms, 3_000);
    assert_eq!(list[0].unread, 1);
    assert_eq!(list[0].peer_hex, "01010101010101010101010101010101");
    assert_eq!(list[1].peer, CAROL);
    assert_eq!(list[1].unread, 1);
}

#[test]
fn read_conversations_have_no_unread() {
    let mut store = MessageStore::new(10);
    store.push(text(ME, BOB, "one"), Direction::Inbound);
    store.push(text(ME, BOB, "two"), Direction::Inbound);
    let ts = [1_000u64, 5_000];
    // Read at 4.5 s: only the second message is new.
    let list = conversation_list(&store, &ts, &[(BOB, 4_500)], &[]);
    assert_eq!(list[0].unread, 1);
    // Read after both (within a millisecond counts as read).
    let list = conversation_list(&store, &ts, &[(BOB, 4_999)], &[]);
    assert_eq!(list[0].unread, 0);
}

#[test]
fn contacts_without_messages_join_the_list() {
    let mut contacts = Vec::new();
    assert!(add_contact(&mut contacts, CAROL, Some("Carol".to_string())));
    assert!(!add_contact(&mut contacts, CAROL, Some("Other".to_string())));
    assert!(add_contact(&mut contacts, BOB, None));
    assert_eq!(contacts.len(), 2);
    assert_eq!(contacts[0].peer_name, "Carol");
    assert_eq!(contacts[0].last_title, "Carol");
    assert_eq!(contacts[1].peer_name, "");

    let mut store = MessageStore::new(10);
    store.push(text(ME, BOB, "yo"), Direction::Inbound);
    let list = conversation_list(&store, &[10], &[], &contacts);
    assert_eq!(list.len(), 2);
    assert_eq!(list[0].peer, BOB);
    assert_eq!(list[1].peer, CAROL);
    assert_eq!(list[1].peer_name, "Carol");
}

#[test]
fn chat_lists_one_conversation_in_order() {
    let mut store = MessageStore::new(10);
    store.push(text(ME, BOB, "first"), Direction::Inbound);
    store.push(text(ME, CAROL, "other"), Direction::Inbound);
    store.push(text(BOB, ME, "second"), Direction::Outbound);
    let ts = [1u64, 2, 3];
    let chat = chat_messages(&store, &ts, &BOB);
    assert_eq!(chat.len(), 2);
    assert!(chat[0].incoming);
    assert_eq!(chat[0].content, "first");
    assert_eq!(chat[0].ts_ms, 1);
    assert!(!chat[1].incoming);
    assert_eq!(chat[1].content, "second");
}

#[test]
fn nodes_are_recorded_once() {
    let mut nodes: Vec<NodeEntry> = Vec::new();
    assert!(add_node(&mut nodes, BOB, Some("Hub".to_string())));
    assert!(!add_node(&mut nodes, BOB, None));
    assert_eq!(nodes.len(), 1);
    assert_eq!(nodes[0].name, "Hub");
    assert_eq!(nodes[0].hex, "01010101010101010101010101010101");
}

#[test]
fn parses_simulator_options() {
    let a = parse_args(&args(&[
        "--identity",
        "/tmp/id.key",
        "--name",
        "Sim",
        "--udp-bind",
        "0.0.0.0:1",
        "--udp-forward",
        "10.0.0.2:1",
        "--tcp-peer",
        "host:4242",
        "--size",
        "640x480",
    ]));
    assert_eq!(a.identity_path.as_deref(), Some("/tmp/id.key"));
    assert_eq!(a.name.as_deref(), Some("Sim"));
    assert_eq!(a.udp_bind.as_deref(), Some("0.0.0.0:1"));
    assert_eq!(a.udp_forward.as_deref(), Some("10.0.0.2:1"));
    assert_eq!(a.tcp_peer.as_deref(), Some("host:4242"));
    assert_eq!(a.size, Some((640, 480)));
    assert!(!a.help);
}

#[test]
fn option_edge_cases() {
    // Unknown arguments are skipped; a bad size is ignored.
    let a = parse_args(&args(&["--bogus", "--size", "wide"]));
    assert_eq!(a.size, None);
    // An option at the end has no value.
    let a = parse_args(&args(&["--name"]));
    assert_eq!(a.name, None);
    // Help stops reading.
    let a = parse_args(&args(&["-h", "--name", "X"]));
    assert!(a.help);
    assert_eq!(a.name, None);
    assert_eq!(parse_size("+3x4"), Some((3, 4)));
    assert_eq!(parse_size("3x"), None);
    assert_eq!(parse_size("4294967296x1"), None);
}

#[test]
fn parses_frequencies() {
    assert_eq!(parse_freq_hz("868000000"), Some(868_000_000));
    assert_eq!(parse_freq_hz("+915000000"), Some(915_000_000));
    assert_eq!(parse_freq_hz("18446744073709551615"), Some(u64::MAX));
    assert_eq!(parse_freq_hz("18446744073709551616"), None);
    assert_eq!(parse_freq_hz(""), None);
    assert_eq!(parse_freq_hz("-1"), None);
    assert_eq!(parse_freq_hz("86 8"), None);
    assert_eq!(parse_unsigned("255", 255), Some(255));
    assert_eq!(parse_unsigned("256", 255), None);
}

#[test]
fn default_configuration_and_errors() {
    let c = NetConfig::default();
    assert!(matches!(c.transport, TransportKind::Offline));
    assert_eq!(c.announce_interval_secs, 300);
    assert!(!c.quit_on_root_back);
    let e = AppError::Transport("bind failed".to_string());
    assert_eq!(e.text(), "transport error: bind failed");
}
