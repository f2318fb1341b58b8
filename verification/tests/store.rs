//! The bounded message store.

use rmpv::Value;

use reticula::lxmf::message::LxmfMessage;
use reticula::lxmf::store::{Direction, MessageStore};

fn msg(source: [u8; 16]) -> LxmfMessage {
    LxmfMessage::new(source, source, Value::F64(0.0), Vec::new(), Vec::new())
}

#[test]
fn stores_and_groups_by_peer() {
    let mut store = MessageStore::new(100);
    let a = [1u8; 16];
    let b = [2u8; 16];

    store.push(msg(a), Direction::Inbound);
    store.push(msg(b), Direction::Inbound);
    store.push(msg(a), Direction::Inbound);

    assert_eq!(store.len(), 3);
    assert_eq!(store.for_peer(&a).len(), 2);
    assert_eq!(store.for_peer(&b).len(), 1);
}

#[test]
fn groups_outbound_by_recipient() {
    let mut store = MessageStore::new(100);
    let me = [9u8; 16];
    let peer = [7u8; 16];

    // We sent to `peer`: the source is us, the destination is the peer.
    let sent = LxmfMessage::new(peer, me, Value::F64(0.0), Vec::new(), b"hello".to_vec());
    store.push(sent, Direction::Outbound);

    // Inbound: the peer sent to us.
    let received = LxmfMessage::new(me, peer, Value::F64(0.0), Vec::new(), b"hi".to_vec());
    store.push(received, Direction::Inbound);

    // Both belong to the conversation with `peer`, and are found under it.
    assert_eq!(store.for_peer(&peer).len(), 2);
    assert_eq!(store.for_peer(&me).len(), 0);
}

#[test]
fn evicts_oldest_at_capacity() {
    let mut store = MessageStore::new(2);
    store.push(msg([1u8; 16]), Direction::Inbound);
    store.push(msg([2u8; 16]), Direction::Inbound);
    store.push(msg([3u8; 16]), Direction::Inbound);

    assert_eq!(store.len(), 2);
    assert_eq!(store.all()[0].source_hash, [2u8; 16]);
    assert_eq!(store.all()[1].source_hash, [3u8; 16]);
}

#[test]
fn eviction_drops_evicted_peer_index() {
    let mut store = MessageStore::new(2);
    let a = [1u8; 16];
    let b = [2u8; 16];
    let c = [3u8; 16];

    store.push(msg(a), Direction::Inbound);
    store.push(msg(b), Direction::Inbound);
    store.push(msg(c), Direction::Inbound);

    // `a` was evicted: it must no longer resolve to any message, and the
    // surviving peers must still map to their own messages.
    assert_eq!(store.for_peer(&a).len(), 0);
    assert_eq!(store.for_peer(&b).len(), 1);
    assert_eq!(store.for_peer(&c).len(), 1);
    assert_eq!(store.for_peer(&b)[0].source_hash, b);
    assert_eq!(store.for_peer(&c)[0].source_hash, c);
}

#[test]
fn conversation_keeps_order_after_eviction() {
    let mut store = MessageStore::new(3);
    let a = [1u8; 16];
    let b = [2u8; 16];
    for (i, p) in [a, b, a, a].iter().enumerate() {
        let m = LxmfMessage::new([0u8; 16], *p, Value::F64(0.0), Vec::new(), vec![i as u8]);
        store.push(m, Direction::Inbound);
    }
    let conv = store.for_peer(&a);
    assert_eq!(conv.len(), 2);
    assert_eq!(conv[0].content, vec![2u8]);
    assert_eq!(conv[1].content, vec![3u8]);
    assert_eq!(store.direction_of(0), Some(Direction::Inbound));
    assert_eq!(store.direction_of(3), None);
}

#[test]
fn zero_capacity_keeps_the_last_message() {
    let mut store = MessageStore::new(0);
    assert!(store.is_empty());
    store.push(msg([1u8; 16]), Direction::Inbound);
    store.push(msg([2u8; 16]), Direction::Inbound);
    assert_eq!(store.len(), 1);
    assert_eq!(store.all()[0].source_hash, [2u8; 16]);
    assert_eq!(store.for_peer(&[1u8; 16]).len(), 0);
}

#[test]
fn pushed_message_is_returned_shared() {
    let mut store = MessageStore::new(4);
    let stored = store.push(msg([5u8; 16]), Direction::Outbound);
    assert_eq!(stored.destination_hash, [5u8; 16]);
    assert!(std::sync::Arc::ptr_eq(&stored, &store.all()[0]));
}
