//! The LXMF message wire format.
//!
//! ```text
//! packed message = destination_hash (16)
//!                | source_hash (16)
//!                | ed25519_signature (64)
//!                | msgpack([timestamp, title, content, fields])
//!
//! hashed_part = destination_hash ‖ source_hash ‖ msgpack([timestamp, title, content, fields])
//! hash        = SHA256(hashed_part)
//! signed_part = hashed_part ‖ hash
//! signature   = ed25519(source signing key, signed_part)
//! ```

use vstd::prelude::*;

use reticulum_sdk::identity::{Identity, PrivateIdentity};
use rmpv::Value;

use crate::bytes::{extend_bytes, byte_range, bytes16, bytes64};
use crate::lxmf::{LxmfError, LxmfErrorKind, error_kind};
use crate::lxmf::wire::{
    encrypt_packet, decrypt_packet, packet_len,
    ShapeModel, ValueShape, shape_of, binary_of, is_number_value, msgpack_of, msgpack_values,
    sha256_of, ed25519_signature, ed25519_valid, ed25519_public, value_shape, binary_value, empty_map, clone_value,
    value_is_number, msgpack_encode, msgpack_decode, sha256, ed25519_sign, ed25519_verify,
    signing_seed, verifying_key, identity_verifying_key, decrypted, public_identity,
};
use crate::hex::hex_of;
use crate::identity::identity_hex;
use crate::page::{decode_lossy, utf8_lossy};

verus! {

/// Length of a truncated Reticulum address hash (LXMF destination/source hash).
pub const DESTINATION_HASH_LENGTH: usize = 16;

/// Length of an Ed25519 signature.
pub const SIGNATURE_LENGTH: usize = 64;

/// Length of a full SHA-256 hash.
pub const HASH_LENGTH: usize = 32;

/// Length of the fixed header: destination, source and signature.
pub const HEADER_LENGTH: usize = 96;

/// An LXMF message.
///
/// Either created locally with [`LxmfMessage::new`] and then
/// [`LxmfMessage::pack`]ed, or received via [`LxmfMessage::unpack`].
#[derive(Debug)]
pub struct LxmfMessage {
    /// Truncated hash of the destination identity (recipient).
    pub destination_hash: [u8; 16],
    /// Truncated hash of the source identity (sender).
    pub source_hash: [u8; 16],
    /// Creation time: the MessagePack number (Unix seconds) it is sent as.
    pub timestamp: Value,
    /// Message title, as raw bytes (usually UTF-8).
    pub title: Vec<u8>,
    /// Message content, as raw bytes (usually UTF-8).
    pub content: Vec<u8>,
    /// Extra structured fields (msgpack map). Usually empty.
    pub fields: Value,
    /// Full SHA-256 hash over the hashed part of the message.
    pub hash: [u8; 32],
    /// Ed25519 signature over `hashed_part ‖ hash`.
    pub signature: [u8; 64],
    /// Whether the signature was validated against a known source identity.
    pub signature_validated: bool,
    /// Whether this message was received (as opposed to locally created).
    pub incoming: bool,
}

/// Abstract value of an [`LxmfMessage`].
pub struct MessageModel {
    pub destination_hash: [u8; 16],
    pub source_hash: [u8; 16],
    pub timestamp: Value,
    pub title: Seq<u8>,
    pub content: Seq<u8>,
    pub fields: Value,
    pub hash: [u8; 32],
    pub signature: [u8; 64],
    pub signature_validated: bool,
    pub incoming: bool,
}

impl View for LxmfMessage {
    type V = MessageModel;

    open spec fn view(&self) -> MessageModel {
        MessageModel {
            destination_hash: self.destination_hash,
            source_hash: self.source_hash,
            timestamp: self.timestamp,
            title: self.title@,
            content: self.content@,
            fields: self.fields,
            hash: self.hash,
            signature: self.signature,
            signature_validated: self.signature_validated,
            incoming: self.incoming,
        }
    }
}

/// The 16-byte array holding `s`.
pub open spec fn arr16(s: Seq<u8>) -> [u8; 16] {
    choose|a: [u8; 16]| a@ == s
}

/// The 32-byte array holding `s`.
pub open spec fn arr32(s: Seq<u8>) -> [u8; 32] {
    choose|a: [u8; 32]| a@ == s
}

/// The 64-byte array holding `s`.
pub open spec fn arr64(s: Seq<u8>) -> [u8; 64] {
    choose|a: [u8; 64]| a@ == s
}

/// The four payload values of `m`: timestamp, title, content, fields.
pub open spec fn payload_values(m: MessageModel) -> Seq<Value> {
    seq![m.timestamp, binary_of(m.title), binary_of(m.content), m.fields]
}

/// `destination ‖ source ‖ payload`, the part that is hashed.
pub open spec fn hashed_part(dest: Seq<u8>, src: Seq<u8>, payload: Seq<u8>) -> Seq<u8> {
    dest + src + payload
}

/// The message hash: SHA-256 of the hashed part.
pub open spec fn message_hash(dest: Seq<u8>, src: Seq<u8>, payload: Seq<u8>) -> Seq<u8> {
    sha256_of(hashed_part(dest, src, payload))
}

/// `hashed_part ‖ hash`, the part that is signed.
pub open spec fn signed_part(dest: Seq<u8>, src: Seq<u8>, payload: Seq<u8>) -> Seq<u8> {
    hashed_part(dest, src, payload) + message_hash(dest, src, payload)
}

/// The signature of `m` with `payload`, under the signing key `seed`.
pub open spec fn signature_for(m: MessageModel, payload: Seq<u8>, seed: Seq<u8>) -> Seq<u8> {
    ed25519_signature(seed, signed_part(m.destination_hash@, m.source_hash@, payload))
}

/// `m` once sealed with `payload` under `seed`: hashed, signed and marked
/// validated.
pub open spec fn sealed(m: MessageModel, payload: Seq<u8>, seed: Seq<u8>) -> MessageModel {
    MessageModel {
        hash: arr32(message_hash(m.destination_hash@, m.source_hash@, payload)),
        signature: arr64(signature_for(m, payload, seed)),
        signature_validated: true,
        ..m
    }
}

/// The packed bytes of `m` with `payload`, signed under `seed`.
pub open spec fn packed_with(m: MessageModel, payload: Seq<u8>, seed: Seq<u8>) -> Seq<u8> {
    m.destination_hash@ + m.source_hash@ + arr64(signature_for(m, payload, seed))@ + payload
}

/// The body bytes a payload value gives: a binary value's bytes, a valid
/// UTF-8 string's bytes, or nothing.
pub open spec fn body_bytes(s: ShapeModel) -> Seq<u8> {
    match s {
        ShapeModel::Binary(b) => b,
        ShapeModel::Str(b, valid) => if valid {
            b
        } else {
            Seq::empty()
        },
        _ => Seq::empty(),
    }
}

/// The public key a recalled source identity offers, if any.
pub open spec fn key_view(k: Option<[u8; 32]>) -> Option<Seq<u8>> {
    match k {
        Some(a) => Some(a@),
        None => None,
    }
}

/// The message that unpacking the payload values `vals` (decoded from the
/// payload of `data`) gives, or why not.
pub open spec fn unpack_values_spec(data: Seq<u8>, vals: Seq<Value>, key: Option<Seq<u8>>) -> Result<
    MessageModel,
    LxmfErrorKind,
> {
    let dest = data.subrange(0, 16);
    let src = data.subrange(16, 32);
    let sig = data.subrange(32, 96);
    if vals.len() < 4 {
        Err(LxmfErrorKind::MalformedPayload)
    } else {
        let p = vals.take(4);
        if !is_number_value(p[0]) {
            Err(LxmfErrorKind::MalformedPayload)
        } else {
            match msgpack_of(p) {
                None => Err(LxmfErrorKind::Encoding),
                Some(enc) => Ok(
                    MessageModel {
                        destination_hash: arr16(dest),
                        source_hash: arr16(src),
                        timestamp: p[0],
                        title: body_bytes(shape_of(p[1])),
                        content: body_bytes(shape_of(p[2])),
                        fields: p[3],
                        hash: arr32(message_hash(dest, src, enc)),
                        signature: arr64(sig),
                        signature_validated: match key {
                            Some(k) => ed25519_valid(k, signed_part(dest, src, enc), sig),
                            None => false,
                        },
                        incoming: true,
                    },
                ),
            }
        }
    }
}

/// The message that unpacking `data` gives, with the source identity's
/// public key `key` when it is known, or why not.
pub open spec fn unpack_spec(data: Seq<u8>, key: Option<Seq<u8>>) -> Result<
    MessageModel,
    LxmfErrorKind,
> {
    if data.len() < 96 {
        Err(LxmfErrorKind::InsufficientData)
    } else {
        match msgpack_values(data.subrange(96, data.len() as int)) {
            None => Err(LxmfErrorKind::Decoding),
            Some(vals) => unpack_values_spec(data, vals, key),
        }
    }
}

/// Whether an unpack result matches its specification.
pub open spec fn unpack_matches(r: Result<LxmfMessage, LxmfError>, s: Result<MessageModel, LxmfErrorKind>) -> bool {
    match (r, s) {
        (Ok(m), Ok(mm)) => m@ == mm,
        (Err(e), Err(k)) => error_kind(e) == k,
        _ => false,
    }
}

proof fn lemma_arr16(a: [u8; 16], s: Seq<u8>)
    requires
        a@ == s,
    ensures
        arr16(s) == a,
{
    let b = arr16(s);
    assert(b@ =~= a@);
}

proof fn lemma_arr32(a: [u8; 32], s: Seq<u8>)
    requires
        a@ == s,
    ensures
        arr32(s) == a,
{
    let b = arr32(s);
    assert(b@ =~= a@);
}

proof fn lemma_arr64(a: [u8; 64], s: Seq<u8>)
    requires
        a@ == s,
    ensures
        arr64(s) == a,
{
    let b = arr64(s);
    assert(b@ =~= a@);
}

/// The bytes of a payload value (see [`body_bytes`]).
pub fn bytes_from_value(v: &Value) -> (r: Vec<u8>)
    ensures
        r@ == body_bytes(shape_of(*v)),
{
    match value_shape(v) {
        ValueShape::Binary(b) => b,
        ValueShape::Str(b, valid) => if valid {
            b
        } else {
            Vec::new()
        },
        _ => Vec::new(),
    }
}

impl LxmfMessage {
    /// Create a new outbound message, sent at `timestamp`, with no fields.
    pub fn new(
        destination_hash: [u8; 16],
        source_hash: [u8; 16],
        timestamp: Value,
        title: Vec<u8>,
        content: Vec<u8>,
    ) -> (r: Self)
        ensures
            r.destination_hash == destination_hash,
            r.source_hash == source_hash,
            r.timestamp == timestamp,
            r.title@ == title@,
            r.content@ == content@,
            shape_of(r.fields) == ShapeModel::Entries(Seq::empty()),
            r.hash@ == Seq::new(32, |_i: int| 0u8),
            r.signature@ == Seq::new(64, |_i: int| 0u8),
            !r.signature_validated,
            !r.incoming,
    {
        LxmfMessage {
            destination_hash,
            source_hash,
            timestamp,
            title,
            content,
            fields: empty_map(),
            hash: [0u8; 32],
            signature: [0u8; 64],
            signature_validated: false,
            incoming: false,
        }
    }

    /// Set arbitrary structured fields on this message.
    pub fn with_fields(self, fields: Value) -> (r: Self)
        ensures
            r@ == (MessageModel { fields, ..self@ }),
    {
        LxmfMessage { fields, ..self }
    }

    /// The four payload values: timestamp, title, content, fields.
    fn payload(&self) -> (r: Vec<Value>)
        ensures
            r@ == payload_values(self@),
    {
        let mut v: Vec<Value> = Vec::new();
        v.push(clone_value(&self.timestamp));
        v.push(binary_value(self.title.as_slice()));
        v.push(binary_value(self.content.as_slice()));
        v.push(clone_value(&self.fields));
        assert(v@ =~= payload_values(self@));
        v
    }

    /// Hash and sign the message with its encoded `payload`, under the
    /// signing key `seed`, and return the packed bytes.
    pub fn seal(&mut self, payload: &[u8], seed: &[u8; 32]) -> (r: Vec<u8>)
        ensures
            final(self)@ == sealed(old(self)@, payload@, seed@),
            r@ == packed_with(old(self)@, payload@, seed@),
            ed25519_valid(
                ed25519_public(seed@),
                signed_part(old(self)@.destination_hash@, old(self)@.source_hash@, payload@),
                final(self)@.signature@,
            ),
    {
        let mut hashed: Vec<u8> = Vec::new();
        extend_bytes(&mut hashed, &self.destination_hash);
        extend_bytes(&mut hashed, &self.source_hash);
        extend_bytes(&mut hashed, payload);
        let digest = sha256(hashed.as_slice());
        let mut signed = hashed;
        extend_bytes(&mut signed, &digest);
        let signature = ed25519_sign(seed, signed.as_slice());
        proof {
            lemma_arr32(digest, message_hash(self.destination_hash@, self.source_hash@, payload@));
            lemma_arr64(signature, signature_for(self@, payload@, seed@));
        }
        self.hash = digest;
        self.signature = signature;
        self.signature_validated = true;
        let mut packed: Vec<u8> = Vec::new();
        extend_bytes(&mut packed, &self.destination_hash);
        extend_bytes(&mut packed, &self.source_hash);
        extend_bytes(&mut packed, &self.signature);
        extend_bytes(&mut packed, payload);
        packed
    }

    /// Pack the message with the signing key `seed`: encode the payload,
    /// then [`LxmfMessage::seal`] it. Fails, leaving the message unchanged,
    /// when the payload cannot be encoded.
    pub fn pack_with(&mut self, seed: &[u8; 32]) -> (r: Result<Vec<u8>, LxmfError>)
        ensures
            match msgpack_of(payload_values(old(self)@)) {
                Some(payload) => r matches Ok(p) && p@ == packed_with(old(self)@, payload, seed@)
                    && final(self)@ == sealed(old(self)@, payload, seed@) && ed25519_valid(
                    ed25519_public(seed@),
                    signed_part(old(self)@.destination_hash@, old(self)@.source_hash@, payload),
                    final(self)@.signature@,
                ),
                None => r matches Err(e) && error_kind(e) == LxmfErrorKind::Encoding
                    && final(self)@ == old(self)@,
            },
    {
        let values = self.payload();
        match msgpack_encode(&values) {
            Ok(payload) => Ok(self.seal(payload.as_slice(), seed)),
            Err(e) => Err(LxmfError::Encoding(e)),
        }
    }

    /// Pack the message into its serialised form, signing with `source`:
    /// the signing key is the one whose hex the identity's stored text ends
    /// with (see [`identity_hex`]).
    pub fn pack(&mut self, source: &PrivateIdentity) -> (r: Result<Vec<u8>, LxmfError>)
        ensures
            match msgpack_of(payload_values(old(self)@)) {
                Some(payload) => r matches Ok(p) && exists|seed: Seq<u8>|
                    #![trigger hex_of(seed)]
                    seed.len() == 32 && hex_of(seed) == identity_hex(*source).subrange(64, 128)
                        && p@ == packed_with(old(self)@, payload, seed) && final(self)@ == sealed(
                        old(self)@,
                        payload,
                        seed,
                    ) && ed25519_valid(
                        ed25519_public(seed),
                        signed_part(old(self)@.destination_hash@, old(self)@.source_hash@, payload),
                        final(self)@.signature@,
                    ),
                None => r matches Err(e) && error_kind(e) == LxmfErrorKind::Encoding
                    && final(self)@ == old(self)@,
            },
    {
        let seed = signing_seed(source);
        let r = self.pack_with(&seed);
        proof {
            if let Some(payload) = msgpack_of(payload_values(old(self)@)) {
                assert(hex_of(seed@) == identity_hex(*source).subrange(64, 128));
            }
        }
        r
    }

    /// Build the message from the payload values `vals` decoded from the
    /// payload of `data`, checking the signature with the source's public
    /// key when it is known.
    pub fn unpack_values(data: &[u8], vals: Vec<Value>, source_key: Option<[u8; 32]>) -> (r: Result<
        LxmfMessage,
        LxmfError,
    >)
        requires
            data@.len() >= 96,
        ensures
            unpack_matches(r, unpack_values_spec(data@, vals@, key_view(source_key))),
    {
        let mut vals = vals;
        if vals.len() < 4 {
            return Err(LxmfError::MalformedPayload);
        }
        let ghost orig = vals@;
        vals.truncate(4);
        assert(vals@ =~= orig.take(4));
        if !value_is_number(&vals[0]) {
            return Err(LxmfError::MalformedPayload);
        }
        let destination_hash = bytes16(data, 0);
        let source_hash = bytes16(data, 16);
        let signature = bytes64(data, 32);
        let title = bytes_from_value(&vals[1]);
        let content = bytes_from_value(&vals[2]);
        let fields = clone_value(&vals[3]);
        let timestamp = clone_value(&vals[0]);
        let enc = match msgpack_encode(&vals) {
            Ok(b) => b,
            Err(e) => {
                return Err(LxmfError::Encoding(e));
            },
        };
        let mut hashed: Vec<u8> = Vec::new();
        extend_bytes(&mut hashed, &destination_hash);
        extend_bytes(&mut hashed, &source_hash);
        extend_bytes(&mut hashed, enc.as_slice());
        let hash = sha256(hashed.as_slice());
        let signature_validated = match source_key {
            Some(k) => {
                let mut signed = hashed;
                extend_bytes(&mut signed, &hash);
                ed25519_verify(&k, signed.as_slice(), &signature)
            },
            None => false,
        };
        proof {
            lemma_arr16(destination_hash, data@.subrange(0, 16));
            lemma_arr16(source_hash, data@.subrange(16, 32));
            lemma_arr64(signature, data@.subrange(32, 96));
            lemma_arr32(hash, message_hash(data@.subrange(0, 16), data@.subrange(16, 32), enc@));
        }
        Ok(
            LxmfMessage {
                destination_hash,
                source_hash,
                timestamp,
                title,
                content,
                fields,
                hash,
                signature,
                signature_validated,
                incoming: true,
            },
        )
    }

    /// Unpack a serialised LXMF message. `source_key` is the public signing
    /// key of the source identity when it is known (recalled from its
    /// announce); otherwise the signature is left unvalidated.
    pub fn unpack(data: &[u8], source_key: Option<[u8; 32]>) -> (r: Result<LxmfMessage, LxmfError>)
        ensures
            unpack_matches(r, unpack_spec(data@, key_view(source_key))),
    {
        if data.len() < HEADER_LENGTH {
            return Err(LxmfError::InsufficientData);
        }
        let payload = byte_range(data, HEADER_LENGTH, data.len());
        match msgpack_decode(payload.as_slice()) {
            Ok(vals) => LxmfMessage::unpack_values(data, vals, source_key),
            Err(e) => Err(LxmfError::Decoding(e)),
        }
    }

    /// The source hash of a serialised message, when it has a full header.
    pub fn source_of(data: &[u8]) -> (r: Option<[u8; 16]>)
        ensures
            match r {
                Some(h) => data@.len() >= 96 && h@ == data@.subrange(16, 32),
                None => data@.len() < 96,
            },
    {
        if data.len() < HEADER_LENGTH {
            None
        } else {
            Some(bytes16(data, 16))
        }
    }

    /// Title decoded as lossy UTF-8.
    pub fn title_string(&self) -> (r: String)
        ensures
            r@ == utf8_lossy(self.title@),
    {
        decode_lossy(self.title.as_slice())
    }

    /// Content decoded as lossy UTF-8.
    pub fn content_string(&self) -> (r: String)
        ensures
            r@ == utf8_lossy(self.content@),
    {
        decode_lossy(self.content.as_slice())
    }
}

/// The public signing key of a recalled source identity.
pub fn recalled_key(identity: Option<&Identity>) -> (r: Option<[u8; 32]>)
    ensures
        r is Some <==> identity is Some,
        identity is Some ==> r->Some_0@ == identity_verifying_key(*identity->Some_0),
{
    match identity {
        Some(id) => Some(verifying_key(id)),
        None => None,
    }
}

/// The public signing key peers recall for `source`, that of its public
/// identity: the public key of the signing key whose hex ends the
/// identity's stored text, under which the messages `source` packs verify.
pub fn sender_key(source: &PrivateIdentity) -> (r: [u8; 32])
    ensures
        forall|s: Seq<u8>|
            #[trigger] hex_of(s) == identity_hex(*source).subrange(64, 128) ==> r@
                == ed25519_public(s),
{
    let public = public_identity(source);
    verifying_key(&public)
}

/// Unpacking what packing wrote gives the message back: same addresses,
/// title, content and hash, the signature made at packing, marked incoming,
/// and validated exactly when the signature checks out under the recalled
/// key. This holds whenever the payload values read back as written and the
/// timestamp is a number.
pub proof fn lemma_unpack_packed(m: MessageModel, seed: Seq<u8>, key: Option<Seq<u8>>, payload: Seq<
    u8,
>)
    requires
        msgpack_of(payload_values(m)) == Some(payload),
        msgpack_values(payload) == Some(payload_values(m)),
        is_number_value(m.timestamp),
        shape_of(binary_of(m.title)) == ShapeModel::Binary(m.title),
        shape_of(binary_of(m.content)) == ShapeModel::Binary(m.content),
    ensures
        unpack_spec(packed_with(m, payload, seed), key) == Ok::<MessageModel, LxmfErrorKind>(
            MessageModel {
                incoming: true,
                signature_validated: match key {
                    Some(k) => ed25519_valid(
                        k,
                        signed_part(m.destination_hash@, m.source_hash@, payload),
                        arr64(signature_for(m, payload, seed))@,
                    ),
                    None => false,
                },
                ..sealed(m, payload, seed)
            },
        ),
{
    let data = packed_with(m, payload, seed);
    let sig = arr64(signature_for(m, payload, seed))@;
    assert(data.subrange(0, 16) =~= m.destination_hash@);
    assert(data.subrange(16, 32) =~= m.source_hash@);
    assert(data.subrange(32, 96) =~= sig);
    assert(data.subrange(96, data.len() as int) =~= payload);
    let vals = payload_values(m);
    assert(vals.take(4) =~= vals);
    lemma_arr16(m.destination_hash, m.destination_hash@);
    lemma_arr16(m.source_hash, m.source_hash@);
    lemma_arr64(arr64(signature_for(m, payload, seed)), sig);
}

/// A message packed under `seed` unpacks, with the public key of `seed`
/// as the recalled source key, as the sealed message with its signature
/// validated. It needs the signature valid under that key (what
/// [`LxmfMessage::pack_with`] ensures), and, as [`lemma_unpack_packed`]
/// does, the payload values reading back as written and a numeric
/// timestamp.
pub proof fn lemma_packed_signature_valid(m: MessageModel, seed: Seq<u8>, payload: Seq<u8>)
    requires
        msgpack_of(payload_values(m)) == Some(payload),
        msgpack_values(payload) == Some(payload_values(m)),
        is_number_value(m.timestamp),
        shape_of(binary_of(m.title)) == ShapeModel::Binary(m.title),
        shape_of(binary_of(m.content)) == ShapeModel::Binary(m.content),
        ed25519_valid(
            ed25519_public(seed),
            signed_part(m.destination_hash@, m.source_hash@, payload),
            sealed(m, payload, seed).signature@,
        ),
    ensures
        unpack_spec(packed_with(m, payload, seed), Some(ed25519_public(seed))) == Ok::<
            MessageModel,
            LxmfErrorKind,
        >(MessageModel { incoming: true, ..sealed(m, payload, seed) }),
{
    lemma_unpack_packed(m, seed, Some(ed25519_public(seed)), payload);
}

/// A message packed by `source` (its stored text `h`, its signing key
/// `seed`, as [`LxmfMessage::pack`] states) validates under the key peers
/// recall for `source` (as [`sender_key`] states): unpacking gives the
/// sealed message, marked incoming, with its signature validated. As with
/// [`lemma_unpack_packed`], the payload values must read back as written
/// and the timestamp be a number.
pub proof fn lemma_sender_key_validates(
    m: MessageModel,
    h: Seq<char>,
    seed: Seq<u8>,
    payload: Seq<u8>,
    key: Seq<u8>,
)
    requires
        msgpack_of(payload_values(m)) == Some(payload),
        msgpack_values(payload) == Some(payload_values(m)),
        is_number_value(m.timestamp),
        shape_of(binary_of(m.title)) == ShapeModel::Binary(m.title),
        shape_of(binary_of(m.content)) == ShapeModel::Binary(m.content),
        hex_of(seed) == h.subrange(64, 128),
        ed25519_valid(
            ed25519_public(seed),
            signed_part(m.destination_hash@, m.source_hash@, payload),
            sealed(m, payload, seed).signature@,
        ),
        forall|s: Seq<u8>| #[trigger] hex_of(s) == h.subrange(64, 128) ==> key == ed25519_public(s),
    ensures
        unpack_spec(packed_with(m, payload, seed), Some(key)) == Ok::<MessageModel, LxmfErrorKind>(
            MessageModel { incoming: true, ..sealed(m, payload, seed) },
        ),
{
    assert(key == ed25519_public(seed));
    lemma_packed_signature_valid(m, seed, payload);
}

/// Encrypt `plaintext` for `recipient` into `out`, returning the packet's
/// length (see [`packet_len`]). The packet's bytes depend on fresh
/// randomness; it succeeds exactly when `out` can hold it.
pub fn encrypt_for(recipient: &Identity, plaintext: &[u8], out: &mut [u8]) -> (r: Result<usize, LxmfError>)
    requires
        old(out)@.len() <= 80 || old(out)@.len() >= packet_len(plaintext@.len()),
    ensures
        final(out)@.len() == old(out)@.len(),
        match r {
            Ok(n) => old(out)@.len() >= packet_len(plaintext@.len()) && n == packet_len(
                plaintext@.len(),
            ),
            Err(e) => old(out)@.len() < packet_len(plaintext@.len()) && e is Reticulum,
        },
{
    match encrypt_packet(recipient, plaintext, out) {
        Ok(n) => Ok(n),
        Err(e) => Err(LxmfError::from(e)),
    }
}

/// Decrypt data produced by [`encrypt_for`] with `identity` into `out`,
/// returning the plaintext's length: it succeeds exactly when the data
/// decrypts for the identity (see [`decrypted`]) and `out` holds its
/// ciphertext, and the plaintext then stands at the start of `out`.
pub fn decrypt_with(identity: &PrivateIdentity, data: &[u8], out: &mut [u8]) -> (r: Result<usize, LxmfError>)
    ensures
        final(out)@.len() == old(out)@.len(),
        r is Ok <==> decrypted(identity_hex(*identity), data@) is Some && data@.len() <= old(
            out,
        )@.len() + 80,
        match r {
            Ok(n) => n <= old(out)@.len() && n + 80 <= data@.len() && Some(
                final(out)@.take(n as int),
            ) == decrypted(identity_hex(*identity), data@),
            Err(e) => e is Reticulum,
        },
        data@.len() <= 80 ==> r is Err,
{
    match decrypt_packet(identity, data, out) {
        Ok(n) => Ok(n),
        Err(e) => Err(LxmfError::from(e)),
    }
}

} // verus!
