//! The LXMF wire format.

use rand_core::UnwrapErr;
use reticulum_sdk::identity::PrivateIdentity;
use rmpv::Value;

use reticula::lxmf::message::{recalled_key, sender_key, LxmfMessage, HEADER_LENGTH};
use reticula::lxmf::{LxmfError, LxmfErrorKind};

fn identity() -> PrivateIdentity {
    PrivateIdentity::new_from_rand(&mut UnwrapErr(getrandom::SysRng))
}

fn address_hash(id: &PrivateIdentity) -> [u8; 16] {
    id.address_hash().as_slice().try_into().unwrap()
}

fn now() -> Value {
    Value::F64(1_700_000_000.25)
}

#[test]
fn message_round_trip() {
    let sender = identity();
    let recipient = identity();

    let mut msg = LxmfMessage::new(
        address_hash(&recipient),
        address_hash(&sender),
        now(),
        b"hello".to_vec(),
        b"world".to_vec(),
    );
    let packed = msg.pack(&sender).unwrap();

    let key = recalled_key(Some(sender.as_identity()));
    let unpacked = LxmfMessage::unpack(&packed, key).unwrap();

    assert_eq!(unpacked.destination_hash, address_hash(&recipient));
    assert_eq!(unpacked.source_hash, address_hash(&sender));
    assert_eq!(unpacked.title_string(), "hello");
    assert_eq!(unpacked.content_string(), "world");
    assert_eq!(unpacked.hash, msg.hash);
    assert!(unpacked.signature_validated);
    assert!(unpacked.incoming);
}

#[test]
fn signature_detects_tampering() {
    let sender = identity();
    let recipient = identity();

    let mut msg = LxmfMessage::new(
        address_hash(&recipient),
        address_hash(&sender),
        now(),
        b"t".to_vec(),
        b"c".to_vec(),
    );
    let mut packed = msg.pack(&sender).unwrap();

    // Corrupt the content payload (last byte region, before the fixed
    // header). Tampering must invalidate the recomputed hash/signature.
    let n = packed.len();
    packed[n - 1] ^= 0xff;

    let key = recalled_key(Some(sender.as_identity()));
    let unpacked = LxmfMessage::unpack(&packed, key).unwrap();
    assert!(!unpacked.signature_validated);
}

#[test]
fn stamp_payload_still_parses() {
    // A payload with a 5th (stamp) element must still unpack; the stamp
    // is ignored.
    let sender = identity();
    let recipient = identity();

    let mut msg = LxmfMessage::new(
        address_hash(&recipient),
        address_hash(&sender),
        now(),
        b"t".to_vec(),
        b"c".to_vec(),
    );
    let packed = msg.pack(&sender).unwrap();

    // Insert a stamp into the payload by re-packing with 5 elements.
    let fixed = HEADER_LENGTH;
    let mut payload: Vec<Value> = rmp_serde::from_slice(&packed[fixed..]).unwrap();
    payload.push(Value::Binary(vec![0xAB; 16]));

    let mut stamped = packed[..fixed].to_vec();
    stamped.extend_from_slice(&rmp_serde::to_vec(&payload).unwrap());

    let key = recalled_key(Some(sender.as_identity()));
    let unpacked = LxmfMessage::unpack(&stamped, key).unwrap();
    assert_eq!(unpacked.content_string(), "c");
    // Hash still validates because the stamp is excluded.
    assert!(unpacked.signature_validated);
}

#[test]
fn unknown_source_leaves_signature_unvalidated() {
    let sender = identity();
    let mut msg = LxmfMessage::new([3u8; 16], address_hash(&sender), now(), Vec::new(), b"x".to_vec());
    let packed = msg.pack(&sender).unwrap();
    assert!(msg.signature_validated);
    assert_eq!(&packed[..16], &[3u8; 16]);
    assert_eq!(&packed[32..96], &msg.signature[..]);
    let unpacked = LxmfMessage::unpack(&packed, None).unwrap();
    assert!(!unpacked.signature_validated);
    assert_eq!(unpacked.hash, msg.hash);
    assert_eq!(LxmfMessage::source_of(&packed), Some(address_hash(&sender)));
}

#[test]
fn wrong_key_does_not_validate() {
    let sender = identity();
    let other = identity();
    let mut msg = LxmfMessage::new([3u8; 16], address_hash(&sender), now(), Vec::new(), b"x".to_vec());
    let packed = msg.pack(&sender).unwrap();
    let key = recalled_key(Some(other.as_identity()));
    assert!(!LxmfMessage::unpack(&packed, key).unwrap().signature_validated);
}

#[test]
fn short_data_is_rejected() {
    let r = LxmfMessage::unpack(&[0u8; 95], None);
    assert!(matches!(r, Err(LxmfError::InsufficientData)));
    assert_eq!(LxmfMessage::source_of(&[0u8; 95]), None);
}

#[test]
fn bad_payloads_are_rejected() {
    let header = vec![0u8; HEADER_LENGTH];
    // Not msgpack at all.
    let mut data = header.clone();
    data.push(0xc1);
    let e = LxmfMessage::unpack(&data, None).unwrap_err();
    assert_eq!(e.kind(), LxmfErrorKind::Decoding);
    // Too few elements.
    let mut data = header.clone();
    data.extend_from_slice(&rmp_serde::to_vec(&vec![Value::F64(1.0), Value::Nil]).unwrap());
    let e = LxmfMessage::unpack(&data, None).unwrap_err();
    assert_eq!(e.kind(), LxmfErrorKind::MalformedPayload);
    // Timestamp that is not a number.
    let mut data = header.clone();
    let vals = vec![Value::Nil, Value::Nil, Value::Nil, Value::Map(Vec::new())];
    data.extend_from_slice(&rmp_serde::to_vec(&vals).unwrap());
    let e = LxmfMessage::unpack(&data, None).unwrap_err();
    assert_eq!(e.kind(), LxmfErrorKind::MalformedPayload);
}

#[test]
fn string_bodies_and_integer_timestamps_unpack() {
    let mut data = vec![0u8; HEADER_LENGTH];
    let vals = vec![
        Value::from(1_700_000_000i64),
        Value::from("title"),
        Value::Nil,
        Value::Map(Vec::new()),
    ];
    data.extend_from_slice(&rmp_serde::to_vec(&vals).unwrap());
    let m = LxmfMessage::unpack(&data, None).unwrap();
    assert_eq!(m.title, b"title".to_vec());
    assert!(m.content.is_empty());
    assert_eq!(m.timestamp, Value::from(1_700_000_000i64));
}

#[test]
fn recalled_key_is_the_verifying_key() {
    let sender = identity();
    let key = recalled_key(Some(sender.as_identity())).unwrap();
    assert_eq!(&key, sender.as_identity().verifying_key_bytes());
    assert_eq!(recalled_key(None), None);
}

#[test]
fn pack_signs_with_the_stored_signing_key() {
    let sender = identity();
    let recipient = identity();
    let hex = sender.to_hex_string();
    let mut seed = [0u8; 32];
    for (i, b) in seed.iter_mut().enumerate() {
        *b = u8::from_str_radix(&hex[64 + 2 * i..66 + 2 * i], 16).unwrap();
    }
    let mut a = LxmfMessage::new(address_hash(&recipient), address_hash(&sender), now(), b"t".to_vec(), b"c".to_vec());
    let mut b = LxmfMessage::new(address_hash(&recipient), address_hash(&sender), now(), b"t".to_vec(), b"c".to_vec());
    assert_eq!(a.pack(&sender).unwrap(), b.pack_with(&seed).unwrap());
}

#[test]
fn packed_with_seed_verifies_under_its_public_key() {
    let seed = [7u8; 32];
    let public = ed25519_dalek::SigningKey::from_bytes(&seed).verifying_key().to_bytes();
    let mut m = LxmfMessage::new([1u8; 16], [2u8; 16], now(), b"t".to_vec(), b"c".to_vec());
    let packed = m.pack_with(&seed).unwrap();
    let back = LxmfMessage::unpack(&packed, Some(public)).unwrap();
    assert!(back.signature_validated);
    assert_eq!(back.signature, m.signature);
    let other = ed25519_dalek::SigningKey::from_bytes(&[8u8; 32]).verifying_key().to_bytes();
    assert!(!LxmfMessage::unpack(&packed, Some(other)).unwrap().signature_validated);
}

#[test]
fn new_message_has_empty_field_map() {
    let m = LxmfMessage::new([1u8; 16], [2u8; 16], now(), b"t".to_vec(), b"c".to_vec());
    assert_eq!(m.fields, Value::Map(Vec::new()));
}

#[test]
fn packed_message_validates_under_sender_key() {
    let sender = identity();
    let key = sender_key(&sender);
    assert_eq!(&key, sender.as_identity().verifying_key_bytes());
    let mut m = LxmfMessage::new([1u8; 16], address_hash(&sender), now(), b"t".to_vec(), b"c".to_vec());
    let packed = m.pack(&sender).unwrap();
    assert!(LxmfMessage::unpack(&packed, Some(key)).unwrap().signature_validated);
    assert!(!LxmfMessage::unpack(&packed, Some(sender_key(&identity()))).unwrap().signature_validated);
}
