//! The outside code the LXMF wire format rests on: MessagePack values and
//! their encoding (`rmpv`, `rmp_serde`), SHA-256 (`sha2`) and Ed25519
//! (`ed25519_dalek`, with keys taken from `reticulum_sdk` identities).
//!
//! Everything here is trusted: each item states what the outside function
//! returns, mostly by naming its result, and nothing here is proved.

use vstd::prelude::*;

use ed25519_dalek::Signer;
use reticulum_sdk::identity::{Identity, PrivateIdentity};
use rmpv::Value;
use sha2::Digest;

use crate::hex::hex_of;
use crate::identity::identity_hex;

verus! {

/// A MessagePack value (`rmpv::Value`), carried through opaquely.
#[verifier::external_type_specification]
#[verifier::external_body]
pub struct ExValue(Value);

/// The error of `rmp_serde::to_vec`.
#[verifier::external_type_specification]
#[verifier::external_body]
pub struct ExEncodeError(rmp_serde::encode::Error);

/// The error of `rmp_serde::from_slice`.
#[verifier::external_type_specification]
#[verifier::external_body]
pub struct ExDecodeError(rmp_serde::decode::Error);

/// The error type of the Reticulum stack.
#[verifier::external_type_specification]
#[verifier::external_body]
pub struct ExRnsError(reticulum_sdk::error::RnsError);

/// A Reticulum identity with its secret keys.
#[verifier::external_type_specification]
#[verifier::external_body]
pub struct ExPrivateIdentity(PrivateIdentity);

/// A Reticulum identity (public keys only).
#[verifier::external_type_specification]
#[verifier::external_body]
pub struct ExIdentity(Identity);

/// What a MessagePack value holds, as far as message bodies go.
pub enum ValueShape {
    /// A binary value and its bytes.
    Binary(Vec<u8>),
    /// A string value: its raw bytes and whether they are valid UTF-8.
    Str(Vec<u8>, bool),
    /// The nil value.
    Nil,
    /// An array and its items.
    Array(Vec<Value>),
    /// A map and its key-value entries, in order.
    Entries(Vec<(Value, Value)>),
    /// Any other value.
    Other,
}

/// Abstract value of a [`ValueShape`].
pub enum ShapeModel {
    Binary(Seq<u8>),
    Str(Seq<u8>, bool),
    Nil,
    Array(Seq<Value>),
    Entries(Seq<(Value, Value)>),
    Other,
}

impl View for ValueShape {
    type V = ShapeModel;

    open spec fn view(&self) -> ShapeModel {
        match self {
            ValueShape::Binary(b) => ShapeModel::Binary(b@),
            ValueShape::Str(b, ok) => ShapeModel::Str(b@, *ok),
            ValueShape::Nil => ShapeModel::Nil,
            ValueShape::Array(items) => ShapeModel::Array(items@),
            ValueShape::Entries(entries) => ShapeModel::Entries(entries@),
            ValueShape::Other => ShapeModel::Other,
        }
    }
}

/// The shape of a MessagePack value.
pub uninterp spec fn shape_of(v: Value) -> ShapeModel;

/// The MessagePack value `Value::Binary(b)`.
pub uninterp spec fn binary_of(b: Seq<u8>) -> Value;

/// The MessagePack array holding `items` (`Value::Array`).
pub uninterp spec fn array_of(items: Seq<Value>) -> Value;

/// The MessagePack integer `n` (`Value::from(n)`).
pub uninterp spec fn integer_of(n: u64) -> Value;

/// The single value `rmpv::decode::read_value` reads from the front of `b`,
/// or `None` when it cannot.
pub uninterp spec fn msgpack_value(b: Seq<u8>) -> Option<Value>;

/// The text a string value displays as (`Utf8String`'s `Display`), for a
/// string value; `None` for any other value.
pub uninterp spec fn string_display_of(v: Value) -> Option<Seq<char>>;

/// Whether a MessagePack value is a number (`Value::is_number`).
pub uninterp spec fn is_number_value(v: Value) -> bool;

/// The MessagePack encoding of an array of values, as `rmp_serde::to_vec`
/// writes it, or `None` when it refuses a value.
pub uninterp spec fn msgpack_of(vals: Seq<Value>) -> Option<Seq<u8>>;

/// The array of values `rmp_serde::from_slice` reads from `b`, or `None`
/// when `b` does not hold one.
pub uninterp spec fn msgpack_values(b: Seq<u8>) -> Option<Seq<Value>>;

/// SHA-256 of `b`.
pub uninterp spec fn sha256_of(b: Seq<u8>) -> Seq<u8>;

/// The Ed25519 signature of `msg` under the secret key `seed`.
pub uninterp spec fn ed25519_signature(seed: Seq<u8>, msg: Seq<u8>) -> Seq<u8>;

/// The Ed25519 public key of the secret key `seed`
/// (`SigningKey::from_bytes(seed).verifying_key().to_bytes()`).
pub uninterp spec fn ed25519_public(seed: Seq<u8>) -> Seq<u8>;

/// Whether `sig` is a valid (strict) Ed25519 signature of `msg` under the
/// public key `key`.
pub uninterp spec fn ed25519_valid(key: Seq<u8>, msg: Seq<u8>, sig: Seq<u8>) -> bool;

/// `rmpv`'s match on a value, told apart by variant: the bytes of a binary
/// value, the raw bytes and UTF-8 validity of a string (`Utf8String::as_bytes`,
/// `Utf8String::is_str`), nil, the items of an array, the entries of a map,
/// or anything else.
#[verifier::external_body]
pub(crate) fn value_shape(v: &Value) -> (r: ValueShape)
    ensures
        r@ == shape_of(*v),
{
    match v {
        Value::Binary(b) => ValueShape::Binary(b.clone()),
        Value::String(s) => ValueShape::Str(s.as_bytes().to_vec(), s.is_str()),
        Value::Nil => ValueShape::Nil,
        Value::Array(items) => ValueShape::Array(items.clone()),
        Value::Map(entries) => ValueShape::Entries(entries.clone()),
        _ => ValueShape::Other,
    }
}

/// `Value::Binary(b.to_vec())`. Stated: the value is the named binary value
/// of `b`, and its shape is a binary value holding exactly `b`.
#[verifier::external_body]
pub(crate) fn binary_value(b: &[u8]) -> (r: Value)
    ensures
        r == binary_of(b@),
        shape_of(r) == ShapeModel::Binary(b@),
{
    Value::Binary(b.to_vec())
}

/// `Value::Nil`. Stated: its shape is nil.
#[verifier::external_body]
pub(crate) fn nil_value() -> (r: Value)
    ensures
        shape_of(r) == ShapeModel::Nil,
{
    Value::Nil
}

/// `Value::Array(items)`: the named array of the items.
#[verifier::external_body]
pub(crate) fn array_value(items: Vec<Value>) -> (r: Value)
    ensures
        r == array_of(items@),
{
    Value::Array(items)
}

/// `Value::from(n)` for an unsigned integer: the named integer.
#[verifier::external_body]
pub(crate) fn integer_value(n: u64) -> (r: Value)
    ensures
        r == integer_of(n),
{
    Value::from(n)
}

/// `rmpv::decode::read_value` on `b`, with a failure read as `None`: the
/// named value.
#[verifier::external_body]
pub(crate) fn read_value(b: &[u8]) -> (r: Option<Value>)
    ensures
        r == msgpack_value(b@),
{
    rmpv::decode::read_value(&mut &b[..]).ok()
}

/// `Utf8String::to_string` of a string value (`None` for other values):
/// the named display text.
#[verifier::external_body]
pub(crate) fn string_display(v: &Value) -> (r: Option<String>)
    ensures
        match r {
            Some(s) => string_display_of(*v) == Some(s@),
            None => string_display_of(*v) is None,
        },
{
    match v {
        Value::String(s) => Some(s.to_string()),
        _ => None,
    }
}

/// `Value::Map(Vec::new())`, the empty field map: its shape is a map with
/// no entries.
#[verifier::external_body]
pub(crate) fn empty_map() -> (r: Value)
    ensures
        shape_of(r) == ShapeModel::Entries(Seq::empty()),
{
    Value::Map(Vec::new())
}

/// `Value::clone` (a derived `Clone`): the copy equals the original.
#[verifier::external_body]
pub(crate) fn clone_value(v: &Value) -> (r: Value)
    ensures
        r == *v,
{
    v.clone()
}

/// `Value::is_number`: whether the value is an integer or a float.
#[verifier::external_body]
pub(crate) fn value_is_number(v: &Value) -> (r: bool)
    ensures
        r == is_number_value(*v),
{
    v.is_number()
}

/// `rmp_serde::to_vec` on an array of values. Stated: it succeeds exactly
/// when the named encoding of the values exists, and gives it.
#[verifier::external_body]
pub(crate) fn msgpack_encode(vals: &Vec<Value>) -> (r: Result<Vec<u8>, rmp_serde::encode::Error>)
    ensures
        match r {
            Ok(b) => msgpack_of(vals@) == Some(b@),
            Err(_) => msgpack_of(vals@) is None,
        },
{
    rmp_serde::to_vec(vals)
}

/// `rmp_serde::from_slice::<Vec<Value>>`. Stated: it succeeds exactly when
/// the named reading of `b` is an array, and gives that array.
#[verifier::external_body]
pub(crate) fn msgpack_decode(b: &[u8]) -> (r: Result<Vec<Value>, rmp_serde::decode::Error>)
    ensures
        match r {
            Ok(v) => msgpack_values(b@) == Some(v@),
            Err(_) => msgpack_values(b@) is None,
        },
{
    rmp_serde::from_slice(b)
}

/// `sha2::Sha256::digest`: the named SHA-256 of `b`.
#[verifier::external_body]
pub(crate) fn sha256(b: &[u8]) -> (r: [u8; 32])
    ensures
        r@ == sha256_of(b@),
{
    sha2::Sha256::digest(b).into()
}

/// Ed25519 signing (`SigningKey::from_bytes(seed).sign(msg)`, as
/// `PrivateIdentity::sign` does with its signing key): the named signature,
/// which, as ed25519-dalek documents, strict verification accepts under the
/// key's own public key.
#[verifier::external_body]
pub(crate) fn ed25519_sign(seed: &[u8; 32], msg: &[u8]) -> (r: [u8; 64])
    ensures
        r@ == ed25519_signature(seed@, msg@),
        ed25519_valid(ed25519_public(seed@), msg@, r@),
{
    ed25519_dalek::SigningKey::from_bytes(seed).sign(msg).to_bytes()
}

/// Strict Ed25519 verification (`VerifyingKey::verify_strict`, as
/// `Identity::verify` does); a key that is not a valid point verifies
/// nothing. Stated: the result is the named validity.
#[verifier::external_body]
pub(crate) fn ed25519_verify(key: &[u8; 32], msg: &[u8], sig: &[u8; 64]) -> (r: bool)
    ensures
        r == ed25519_valid(key@, msg@, sig@),
{
    match ed25519_dalek::VerifyingKey::from_bytes(key) {
        Ok(k) => k.verify_strict(msg, &ed25519_dalek::Signature::from_bytes(sig)).is_ok(),
        Err(_) => false,
    }
}

/// The text of a Reticulum error (its `Display`). Nothing is stated of it.
#[verifier::external_body]
pub(crate) fn rns_error_text(e: &reticulum_sdk::error::RnsError) -> (r: String) {
    format!("{e}")
}

/// The text of a MessagePack encoding error (its `Display`). Nothing is
/// stated of it.
#[verifier::external_body]
pub(crate) fn encode_error_text(e: &rmp_serde::encode::Error) -> (r: String) {
    format!("{e}")
}

/// The text of a MessagePack decoding error (its `Display`). Nothing is
/// stated of it.
#[verifier::external_body]
pub(crate) fn decode_error_text(e: &rmp_serde::decode::Error) -> (r: String) {
    format!("{e}")
}

/// The signing key bytes of an identity (`PrivateIdentity::sign_key`,
/// `SigningKey::to_bytes`): the key whose lowercase hex the SDK writes as
/// the second half of the identity's stored text (`to_hex_string`).
#[verifier::external_body]
pub(crate) fn signing_seed(id: &PrivateIdentity) -> (r: [u8; 32])
    ensures
        hex_of(r@) == identity_hex(*id).subrange(64, 128),
{
    id.sign_key().to_bytes()
}

/// The Ed25519 public key an identity verifies signatures with.
pub uninterp spec fn identity_verifying_key(id: Identity) -> Seq<u8>;

/// The public signing key bytes of an identity
/// (`Identity::verifying_key_bytes`): the named key.
#[verifier::external_body]
pub(crate) fn verifying_key(id: &Identity) -> (r: [u8; 32])
    ensures
        r@ == identity_verifying_key(*id),
{
    *id.verifying_key_bytes()
}

/// The public identity of a private identity (`PrivateIdentity::as_identity`,
/// copied). As the SDK's source shows, its Ed25519 public key is that of
/// the identity's signing key, whose lowercase hex ends the identity's
/// stored text (`to_hex_string`).
#[verifier::external_body]
pub(crate) fn public_identity(id: &PrivateIdentity) -> (r: Identity)
    ensures
        forall|s: Seq<u8>|
            #[trigger] hex_of(s) == identity_hex(*id).subrange(64, 128) ==> identity_verifying_key(
                r,
            ) == ed25519_public(s),
{
    *id.as_identity()
}

/// The length of a packet encrypting `n` bytes: the 32-byte ephemeral key,
/// the 16-byte IV, the AES-CBC ciphertext padded to whole 16-byte blocks
/// and the 32-byte HMAC tag.
pub open spec fn packet_len(n: nat) -> nat {
    80 + (n / 16 + 1) * 16
}

/// Encrypt `text` for `recipient` into `out` with fresh randomness from the
/// system (`Identity::encrypt_packet`, no salt). The packet is an ephemeral
/// public key followed by a Fernet token, written at the start of `out`;
/// which bytes it holds depends on the random key and IV and is not stated.
/// It succeeds exactly when `out` holds the whole packet; a buffer of at
/// most 80 bytes is refused, and one in between makes the SDK panic, so it
/// is not allowed.
#[verifier::external_body]
pub(crate) fn encrypt_packet(recipient: &Identity, text: &[u8], out: &mut [u8]) -> (r: Result<
    usize,
    reticulum_sdk::error::RnsError,
>)
    requires
        old(out)@.len() <= 80 || old(out)@.len() >= packet_len(text@.len()),
    ensures
        final(out)@.len() == old(out)@.len(),
        r is Ok <==> old(out)@.len() >= packet_len(text@.len()),
        r is Ok ==> r->Ok_0 == packet_len(text@.len()),
{
    let mut rng = rand_core::UnwrapErr(getrandom::SysRng);
    match recipient.encrypt_packet(&mut rng, text, None, out) {
        Ok(packet) => Ok(packet.len()),
        Err(e) => Err(e),
    }
}

/// The plaintext that the identity stored as `key_hex` recovers from the
/// packet `data` (an ephemeral public key followed by a Fernet token), or
/// `None` when the packet is too short, its token does not verify or its
/// padding is malformed.
pub uninterp spec fn decrypted(key_hex: Seq<char>, data: Seq<u8>) -> Option<Seq<u8>>;

/// Decrypt a packet made by [`encrypt_packet`] for `identity` into `out`
/// (`PrivateIdentity::decrypt_packet`, no salt). The result depends on the
/// identity's keys, the packet and the size of `out` alone (the random
/// source the SDK hands to Fernet is not used to decrypt). As the SDK's and
/// the `cipher` crate's source show, it succeeds exactly when the packet
/// decrypts (the named plaintext exists) and `out` holds the packet's
/// ciphertext, which is the packet less its 80 bytes of key, IV and tag;
/// the plaintext then stands at the start of `out`. What the rest of `out`
/// holds afterwards is not stated.
#[verifier::external_body]
pub(crate) fn decrypt_packet(identity: &PrivateIdentity, data: &[u8], out: &mut [u8]) -> (r: Result<
    usize,
    reticulum_sdk::error::RnsError,
>)
    ensures
        final(out)@.len() == old(out)@.len(),
        r is Ok <==> decrypted(identity_hex(*identity), data@) is Some && data@.len() <= old(
            out,
        )@.len() + 80,
        r is Ok ==> r->Ok_0 <= old(out)@.len() && r->Ok_0 + 80 <= data@.len() && Some(
            final(out)@.take(r->Ok_0 as int),
        ) == decrypted(identity_hex(*identity), data@),
        data@.len() <= 80 ==> r is Err,
{
    let mut rng = rand_core::UnwrapErr(getrandom::SysRng);
    match identity.decrypt_packet(&mut rng, data, None, out) {
        Ok(plain) => Ok(plain.len()),
        Err(e) => Err(e),
    }
}

} // verus!
