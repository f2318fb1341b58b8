//! The stored form of a Reticulum identity: the hex of its private X25519
//! key followed by the hex of its Ed25519 signing key, as the SDK's
//! `to_hex_string` / `new_from_hex_string` write and read it; what is
//! written reads back as the same identity.

use vstd::prelude::*;
use vstd::string::StringSliceAdditionalSpecFns;

use reticulum_sdk::error::RnsError;
use reticulum_sdk::identity::PrivateIdentity;

use crate::text::{is_ws, trim, trim_end, trim_start, trim_string};
use crate::hex::hex_digit;

verus! {

/// Whether every character of `s` is a lowercase hex digit.
pub open spec fn lower_hex(s: Seq<char>) -> bool {
    forall|i: int| 0 <= i < s.len() ==> exists|d: u8| d < 16 && #[trigger] s[i] == hex_digit(d)
}

/// Whether byte `b` is a hex digit of either case.
pub open spec fn is_hex_byte(b: u8) -> bool {
    ||| 48 <= b <= 57
    ||| 97 <= b <= 102
    ||| 65 <= b <= 70
}

/// The character of ASCII byte `b`, an uppercase letter turned lowercase.
pub open spec fn lower_ascii(b: u8) -> char {
    if 65 <= b <= 90 {
        ((b + 32) as u8) as char
    } else {
        b as char
    }
}

/// Whether `bytes` start with the 128 hex digits of an identity (its two
/// 32-byte keys); anything after them is ignored.
pub open spec fn holds_identity_hex(bytes: Seq<u8>) -> bool {
    &&& bytes.len() >= 128
    &&& forall|i: int| 0 <= i < 128 ==> is_hex_byte(#[trigger] bytes[i])
}

/// The stored text of the identity read from `bytes`: their first 128 hex
/// digits, in lowercase.
pub open spec fn identity_hex_read(bytes: Seq<u8>) -> Seq<char> {
    Seq::new(128, |i: int| lower_ascii(bytes[i]))
}

/// The text `PrivateIdentity::to_hex_string` gives for an identity.
pub uninterp spec fn identity_hex(id: PrivateIdentity) -> Seq<char>;

/// Read an identity from its stored hex (`PrivateIdentity::new_from_hex_string`).
/// As the SDK's source shows, it succeeds exactly when the text's first
/// 128 bytes are hex digits of either case (later bytes are ignored), and
/// the identity it builds holds the keys those digits spell, so that its
/// stored text is those digits in lowercase. The identity itself is opaque
/// here.
#[verifier::external_body]
fn private_identity_from_hex(hex: &str) -> (r: Result<PrivateIdentity, RnsError>)
    ensures
        r is Ok <==> holds_identity_hex(hex.spec_bytes()),
        r is Ok ==> identity_hex(r->Ok_0) == identity_hex_read(hex.spec_bytes()),
{
    PrivateIdentity::new_from_hex_string(hex)
}

/// The stored hex of an identity (`PrivateIdentity::to_hex_string`): the
/// named text, which the SDK writes as the lowercase hex of its two 32-byte
/// keys, so 128 lowercase hex digits.
#[verifier::external_body]
fn private_identity_hex(identity: &PrivateIdentity) -> (r: String)
    ensures
        r@ == identity_hex(*identity),
        r@.len() == 128,
        lower_hex(r@),
{
    identity.to_hex_string()
}

/// Parse a stored identity; white space around the hex is ignored. The
/// text holds an identity exactly when its first 128 bytes after the
/// leading white space are hex digits, and that identity is stored as
/// those digits in lowercase.
pub fn identity_from_text(text: &str) -> (r: Option<PrivateIdentity>)
    ensures
        r is Some <==> holds_identity_hex(vstd::utf8::encode_utf8(trim(text@))),
        r is Some ==> identity_hex(r->Some_0) == identity_hex_read(
            vstd::utf8::encode_utf8(trim(text@)),
        ),
{
    let t = trim_string(text);
    match private_identity_from_hex(t.as_str()) {
        Ok(identity) => Some(identity),
        Err(_) => None,
    }
}

/// The text an identity is stored as: 128 lowercase hex digits.
pub fn identity_text(identity: &PrivateIdentity) -> (r: String)
    ensures
        r@ == identity_hex(*identity),
        r@.len() == 128,
        lower_hex(r@),
{
    private_identity_hex(identity)
}

/// A stored identity reads back as itself: text of 128 lowercase hex
/// digits (what [`identity_text`] gives) has nothing to trim, holds an
/// identity, and the identity read from it is stored as the same text.
pub proof fn lemma_stored_identity_reads_back(s: Seq<char>)
    requires
        s.len() == 128,
        lower_hex(s),
    ensures
        holds_identity_hex(vstd::utf8::encode_utf8(trim(s))),
        identity_hex_read(vstd::utf8::encode_utf8(trim(s))) == s,
{
    assert forall|i: int| 0 <= i < s.len() implies {
        let u = s[i] as u32;
        (48 <= u <= 57 || 97 <= u <= 102) && !is_ws(#[trigger] s[i])
    } by {
        let d = choose|d: u8| d < 16 && s[i] == hex_digit(d);
        assert(d < 16 && s[i] == hex_digit(d));
    }
    assert(!is_ws(s.last()));
    assert(trim_end(s) == s);
    assert(!is_ws(s[0]));
    assert(trim_start(s) == s);
    assert(trim(s) == s);
    assert(vstd::utf8::is_ascii_chars(s));
    vstd::utf8::is_ascii_chars_encode_utf8(s);
    let b = vstd::utf8::encode_utf8(s);
    assert forall|i: int| 0 <= i < 128 implies is_hex_byte(#[trigger] b[i]) && lower_ascii(b[i])
        == s[i] by {
        assert(s[i] as u8 == b[i]);
        let u = s[i] as u32;
        assert(48 <= u <= 57 || 97 <= u <= 102);
    }
    assert(identity_hex_read(b) =~= s);
}

} // verus!
