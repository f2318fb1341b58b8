//! Destination addresses, announces, NomadNet pages, stored identities and
//! packet encryption.

use rand_core::UnwrapErr;
use reticulum_sdk::identity::PrivateIdentity;
use rmpv::Value;
use sha2::{Digest, Sha256};

use reticula::destination::{address_for, announces, note_discovered};
use reticula::identity::{identity_from_text, identity_text};
use reticula::lxmf::client::{
    delivery_app_data, delivery_name, is_lxmf_delivery, lxmf_address_for, opportunistic_data,
};
use reticula::lxmf::message::{decrypt_with, encrypt_for};
use reticula::lxmf::LxmfErrorKind;
use reticula::nomad::{
    announce_name, is_nomad_node, node_address_for, page_error_notice, page_from_response,
    page_path, NomadError,
};
use reticula::view_model::fetching_notice;

fn identity() -> PrivateIdentity {
    PrivateIdentity::new_from_rand(&mut UnwrapErr(getrandom::SysRng))
}

/// The address of `app.aspect` owned by `identity`, computed directly.
fn expected_address(name: &str, identity: &[u8; 16]) -> [u8; 16] {
    let name_hash: [u8; 32] = Sha256::digest(name.as_bytes()).into();
    let mut data = name_hash[..10].to_vec();
    data.extend_from_slice(identity);
    let full: [u8; 32] = Sha256::digest(&data).into();
    full[..16].try_into().unwrap()
}

#[test]
fn delivery_and_node_addresses() {
    let id = [7u8; 16];
    assert_eq!(lxmf_address_for(&id), expected_address("lxmf.delivery", &id));
    assert_eq!(node_address_for(&id), expected_address("nomadnetwork.node", &id));
    assert_eq!(address_for("app", "", &id), expected_address("app", &id));
    assert_ne!(lxmf_address_for(&id), node_address_for(&id));
}

#[test]
fn recognises_announced_destinations() {
    let id = [3u8; 16];
    let delivery = lxmf_address_for(&id);
    assert!(is_lxmf_delivery(&id, &delivery));
    assert!(!is_lxmf_delivery(&[4u8; 16], &delivery));
    assert!(!is_nomad_node(&id, &delivery));
    assert!(is_nomad_node(&id, &node_address_for(&id)));
    assert!(announces("lxmf", "delivery", &id, &delivery));
}

#[test]
fn discovery_reports_each_address_once() {
    let mut seen = Vec::new();
    assert!(note_discovered(&mut seen, [1u8; 16]));
    assert!(note_discovered(&mut seen, [2u8; 16]));
    assert!(!note_discovered(&mut seen, [1u8; 16]));
    assert_eq!(seen, vec![[1u8; 16], [2u8; 16]]);
}

#[test]
fn opportunistic_packets_regain_their_destination() {
    let data = opportunistic_data(&[9u8; 16], b"abc");
    assert_eq!(&data[..16], &[9u8; 16]);
    assert_eq!(&data[16..], b"abc");
}

#[test]
fn delivery_announce_round_trips_the_name() {
    let data = delivery_app_data(Some("Alice"));
    assert_eq!(delivery_name(&data), Some("Alice".to_string()));
    // The list is [name, nil, [0]].
    let v = rmpv::decode::read_value(&mut &data[..]).unwrap();
    assert_eq!(
        v,
        Value::Array(vec![
            Value::Binary(b"Alice".to_vec()),
            Value::Nil,
            Value::Array(vec![Value::from(0)]),
        ])
    );
    assert_eq!(delivery_name(&delivery_app_data(None)), None);
    assert_eq!(delivery_name(&delivery_app_data(Some("   "))), None);
    assert_eq!(delivery_name(b"\xc1"), None);
}

#[test]
fn node_names_from_announces() {
    assert_eq!(announce_name(b"My Node"), Some("My Node".to_string()));
    assert_eq!(announce_name(b"  \n"), None);
    assert_eq!(announce_name(b""), None);
}

#[test]
fn requests_default_page() {
    assert_eq!(page_path(""), "/page/index.mu");
    assert_eq!(page_path("/page/x.mu"), "/page/x.mu");
    assert_eq!(fetching_notice("/page/x.mu"), "Fetching /page/x.mu…");
}

#[test]
fn pages_from_responses() {
    let node = [0xabu8; 16];
    let page = page_from_response(&Value::Binary(b">Title\nbody".to_vec()), &node).unwrap();
    assert_eq!(page.source, "abababababababababababababababab");
    assert_eq!(page.raw, b">Title\nbody".to_vec());
    assert_eq!(page.title, "Title");
    let page = page_from_response(&Value::from("text page"), &node).unwrap();
    assert_eq!(page.lines()[0].text, "text page");
    let err = page_from_response(&Value::from(5), &node).unwrap_err();
    assert!(matches!(err, NomadError::InvalidResponse));
}

#[test]
fn page_error_notices() {
    assert_eq!(page_error_notice(&NomadError::Timeout), "Page error: node did not answer in time");
    assert_eq!(page_error_notice(&NomadError::LinkClosed), "Page error: link to node closed");
    assert_eq!(
        page_error_notice(&NomadError::NoLink("abcd".to_string())),
        "Page error: no link to node abcd"
    );
    assert_eq!(page_error_notice(&NomadError::InvalidResponse), "Page error: invalid page response");
}

#[test]
fn stored_identity_round_trip() {
    let id = identity();
    let text = identity_text(&id);
    assert_eq!(text.len(), 128);
    assert_eq!(text, id.to_hex_string());
    let back = identity_from_text(&format!("  {text}\n")).unwrap();
    assert_eq!(identity_text(&back), text);
    assert!(identity_from_text("abcd").is_none());
    assert!(identity_from_text("").is_none());
}

#[test]
fn stored_identity_accepts_either_case_and_ignores_tail() {
    let lower: String = "0123456789abcdef".repeat(8);
    let upper = lower.to_uppercase();
    let a = identity_from_text(&upper).unwrap();
    assert_eq!(identity_text(&a), lower);
    // Bytes after the 128 hex digits are ignored.
    let b = identity_from_text(&format!("{lower}zz tail")).unwrap();
    assert_eq!(identity_text(&b), lower);
    // A non-hex character among the first 128 bytes is refused.
    let mut bad = lower.clone();
    bad.replace_range(70..71, "g");
    assert!(identity_from_text(&bad).is_none());
    // 127 digits are too few.
    assert!(identity_from_text(&lower[..127]).is_none());
}

#[test]
fn encrypted_packets_decrypt() {
    let recipient = identity();
    let mut packet = [0u8; 256];
    let n = encrypt_for(recipient.as_identity(), b"secret", &mut packet).unwrap();
    // Key, IV, one padded block and the tag.
    assert_eq!(n, 32 + 16 + 16 + 32);
    let mut plain = [0u8; 64];
    let m = decrypt_with(&recipient, &packet[..n], &mut plain).unwrap();
    assert_eq!(&plain[..m], b"secret");
    // A buffer no longer than the ephemeral key cannot hold a packet.
    let mut small = [0u8; 32];
    let err = encrypt_for(recipient.as_identity(), b"secret", &mut small).unwrap_err();
    assert_eq!(err.kind(), LxmfErrorKind::Reticulum);
    assert!(decrypt_with(&recipient, &packet[..32], &mut plain).is_err());
    // Another identity cannot read it.
    assert!(decrypt_with(&identity(), &packet[..n], &mut plain).is_err());
    // The output must hold the ciphertext (the packet less 80 bytes).
    let mut exact = [0u8; 16];
    assert_eq!(decrypt_with(&recipient, &packet[..n], &mut exact).unwrap(), 6);
    assert_eq!(&exact[..6], b"secret");
    let mut short = [0u8; 15];
    assert!(decrypt_with(&recipient, &packet[..n], &mut short).is_err());
}
