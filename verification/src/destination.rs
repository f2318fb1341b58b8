//! Reticulum destination addresses: a destination named `app.aspect` owned
//! by an identity is found at the first 16 bytes of
//! `SHA256(name_hash ‖ identity_hash)`, where the name hash is the first 10
//! bytes of `SHA256("app.aspect")`.

use vstd::prelude::*;
use vstd::utf8::encode_utf8;

use reticulum_sdk::destination::DestinationName;

use crate::bytes::{extend_bytes, same16, lemma_eq16};
use crate::lxmf::wire::{sha256, sha256_of};

verus! {

/// The bytes hashed for a destination name: `app`, then `.` and `aspect`
/// when there is an aspect.
pub open spec fn name_bytes(app: Seq<char>, aspect: Seq<char>) -> Seq<u8> {
    if aspect.len() == 0 {
        encode_utf8(app)
    } else {
        encode_utf8(app) + seq![0x2eu8] + encode_utf8(aspect)
    }
}

/// The 10-byte name hash of `app.aspect`.
pub open spec fn name_hash_of(app: Seq<char>, aspect: Seq<char>) -> Seq<u8> {
    sha256_of(name_bytes(app, aspect)).take(10)
}

/// The address of the destination with name hash `name` owned by the
/// identity with address hash `identity`.
pub open spec fn address_of(name: Seq<u8>, identity: Seq<u8>) -> Seq<u8> {
    sha256_of(name + identity).take(16)
}

/// `DestinationName::new(app, aspect).as_name_hash_slice()`: SHA-256 of the
/// name bytes (see [`name_bytes`]), cut to 10 bytes, as the source computes
/// it.
#[verifier::external_body]
pub(crate) fn name_hash(app: &str, aspect: &str) -> (r: [u8; 10])
    ensures
        r@ == name_hash_of(app@, aspect@),
{
    let mut out = [0u8; 10];
    out.copy_from_slice(DestinationName::new(app, aspect).as_name_hash_slice());
    out
}

/// The address of the destination named by `name` owned by `identity`.
pub fn destination_address(name: &[u8; 10], identity: &[u8; 16]) -> (r: [u8; 16])
    ensures
        r@ == address_of(name@, identity@),
{
    let mut data: Vec<u8> = Vec::new();
    extend_bytes(&mut data, name);
    extend_bytes(&mut data, identity);
    let full = sha256(data.as_slice());
    let mut out = [0u8; 16];
    let mut i: usize = 0;
    while i < 16
        invariant
            i <= 16,
            full@ == sha256_of(name@ + identity@),
            forall|k: int| 0 <= k < i ==> out@[k] == full@[k],
        decreases 16 - i,
    {
        out[i] = full[i];
        i += 1;
    }
    assert(out@ =~= full@.take(16));
    out
}

/// The address of the destination `app.aspect` owned by `identity`.
pub fn address_for(app: &str, aspect: &str, identity: &[u8; 16]) -> (r: [u8; 16])
    ensures
        r@ == address_of(name_hash_of(app@, aspect@), identity@),
{
    let name = name_hash(app, aspect);
    destination_address(&name, identity)
}

/// Whether an announced destination `address`, owned by `identity`, is the
/// destination `app.aspect`.
pub fn announces(app: &str, aspect: &str, identity: &[u8; 16], address: &[u8; 16]) -> (r: bool)
    ensures
        r == (address@ == address_of(name_hash_of(app@, aspect@), identity@)),
{
    let expected = address_for(app, aspect, identity);
    let r = same16(address, &expected);
    proof {
        if address@ == expected@ {
            lemma_eq16(*address, expected);
        }
    }
    r
}

/// Remember `address` as discovered; whether it was new.
pub fn note_discovered(seen: &mut Vec<[u8; 16]>, address: [u8; 16]) -> (r: bool)
    ensures
        r == !old(seen)@.contains(address),
        final(seen)@ == if r {
            old(seen)@.push(address)
        } else {
            old(seen)@
        },
{
    let mut i: usize = 0;
    while i < seen.len()
        invariant
            i <= seen@.len(),
            forall|k: int| 0 <= k < i ==> seen@[k] != address,
        decreases seen@.len() - i,
    {
        if same16(&seen[i], &address) {
            return false;
        }
        i += 1;
    }
    seen.push(address);
    true
}

} // verus!
