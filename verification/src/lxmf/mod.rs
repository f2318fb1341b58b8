//! LXMF (Lightweight eXchange Message Format) messaging: the message wire
//! format and a bounded in-memory message store.

pub mod wire;
pub mod message;
pub mod store;
pub mod client;

use vstd::prelude::*;

use reticulum_sdk::error::RnsError;

verus! {

/// Errors that can occur in LXMF message handling.
#[derive(Debug)]
pub enum LxmfError {
    /// Incoming data was shorter than the fixed LXMF header.
    InsufficientData,
    /// The msgpack payload was not a valid LXMF payload array.
    MalformedPayload,
    /// The message header / payload was structurally invalid.
    InvalidArgument,
    /// The message signature could not be validated (and the source identity
    /// was known).
    SignatureInvalid,
    /// The message destination is not this client.
    NotForUs,
    /// A Reticulum layer error.
    Reticulum(RnsError),
    /// Outgoing message send timed out waiting for a link to activate.
    SendTimeout,
    /// No path is known to the destination (it has not announced recently).
    NoPathToDestination([u8; 16]),
    /// A link we relied on closed.
    LinkClosed,
    /// The link could not be found in the transport.
    LinkLost,
    /// Msgpack encoding failed.
    Encoding(rmp_serde::encode::Error),
    /// Msgpack decoding failed.
    Decoding(rmp_serde::decode::Error),
}

/// The kind of an [`LxmfError`], without the outside error it carries.
#[derive(Debug, Clone, Copy, PartialEq, Eq)]
pub enum LxmfErrorKind {
    InsufficientData,
    MalformedPayload,
    InvalidArgument,
    SignatureInvalid,
    NotForUs,
    Reticulum,
    SendTimeout,
    NoPathToDestination([u8; 16]),
    LinkClosed,
    LinkLost,
    Encoding,
    Decoding,
}

/// The kind of `e`.
pub open spec fn error_kind(e: LxmfError) -> LxmfErrorKind {
    match e {
        LxmfError::InsufficientData => LxmfErrorKind::InsufficientData,
        LxmfError::MalformedPayload => LxmfErrorKind::MalformedPayload,
        LxmfError::InvalidArgument => LxmfErrorKind::InvalidArgument,
        LxmfError::SignatureInvalid => LxmfErrorKind::SignatureInvalid,
        LxmfError::NotForUs => LxmfErrorKind::NotForUs,
        LxmfError::Reticulum(_) => LxmfErrorKind::Reticulum,
        LxmfError::SendTimeout => LxmfErrorKind::SendTimeout,
        LxmfError::NoPathToDestination(h) => LxmfErrorKind::NoPathToDestination(h),
        LxmfError::LinkClosed => LxmfErrorKind::LinkClosed,
        LxmfError::LinkLost => LxmfErrorKind::LinkLost,
        LxmfError::Encoding(_) => LxmfErrorKind::Encoding,
        LxmfError::Decoding(_) => LxmfErrorKind::Decoding,
    }
}

/// `prefix` followed by `tail`, as a string.
fn joined(prefix: &str, tail: &str) -> (r: String)
    ensures
        r@ == prefix@ + tail@,
{
    let mut v = crate::text::chars_of(prefix);
    crate::text::append_str(&mut v, tail);
    crate::text::string_of(&v)
}

/// The text of an error of kind `k`, where it does not depend on an outside
/// error.
pub open spec fn kind_text(k: LxmfErrorKind) -> Option<Seq<char>> {
    match k {
        LxmfErrorKind::InsufficientData => Some("LXMF data shorter than fixed header"@),
        LxmfErrorKind::MalformedPayload => Some("LXMF msgpack payload malformed"@),
        LxmfErrorKind::InvalidArgument => Some("invalid LXMF argument"@),
        LxmfErrorKind::SignatureInvalid => Some("LXMF signature validation failed"@),
        LxmfErrorKind::NotForUs => Some("LXMF message not addressed to this client"@),
        LxmfErrorKind::SendTimeout => Some("LXMF send timed out"@),
        LxmfErrorKind::NoPathToDestination(h) => Some(
            "no path to LXMF destination "@ + crate::hex::hex_of(h@),
        ),
        LxmfErrorKind::LinkClosed => Some("LXMF link closed"@),
        LxmfErrorKind::LinkLost => Some("LXMF link lost"@),
        _ => None,
    }
}

/// The fixed start of the text of an error of kind `k` that carries an
/// outside error.
pub open spec fn kind_prefix(k: LxmfErrorKind) -> Seq<char> {
    match k {
        LxmfErrorKind::Reticulum => "reticulum error: "@,
        LxmfErrorKind::Encoding => "LXMF msgpack encoding error: "@,
        LxmfErrorKind::Decoding => "LXMF msgpack decoding error: "@,
        _ => Seq::empty(),
    }
}

impl LxmfError {
    /// The error as shown to the user; an outside error's own text follows
    /// its prefix.
    pub fn text(&self) -> (r: String)
        ensures
            match kind_text(error_kind(*self)) {
                Some(t) => r@ == t,
                None => crate::text::starts_with(r@, kind_prefix(error_kind(*self))),
            },
    {
        let s = match self {
            LxmfError::InsufficientData => "LXMF data shorter than fixed header",
            LxmfError::MalformedPayload => "LXMF msgpack payload malformed",
            LxmfError::InvalidArgument => "invalid LXMF argument",
            LxmfError::SignatureInvalid => "LXMF signature validation failed",
            LxmfError::NotForUs => "LXMF message not addressed to this client",
            LxmfError::SendTimeout => "LXMF send timed out",
            LxmfError::LinkClosed => "LXMF link closed",
            LxmfError::LinkLost => "LXMF link lost",
            LxmfError::NoPathToDestination(h) => {
                let hx = crate::hex::hex16(h);
                return joined("no path to LXMF destination ", hx.as_str());
            },
            LxmfError::Reticulum(e) => {
                let t = wire::rns_error_text(e);
                let r = joined("reticulum error: ", t.as_str());
                assert(r@.subrange(0, kind_prefix(error_kind(*self)).len() as int) =~= kind_prefix(error_kind(*self)));
                return r;
            },
            LxmfError::Encoding(e) => {
                let t = wire::encode_error_text(e);
                let r = joined("LXMF msgpack encoding error: ", t.as_str());
                assert(r@.subrange(0, kind_prefix(error_kind(*self)).len() as int) =~= kind_prefix(error_kind(*self)));
                return r;
            },
            LxmfError::Decoding(e) => {
                let t = wire::decode_error_text(e);
                let r = joined("LXMF msgpack decoding error: ", t.as_str());
                assert(r@.subrange(0, kind_prefix(error_kind(*self)).len() as int) =~= kind_prefix(error_kind(*self)));
                return r;
            },
        };
        crate::text::string_of(&crate::text::chars_of(s))
    }

    /// The kind of this error.
    pub fn kind(&self) -> (r: LxmfErrorKind)
        ensures
            r == error_kind(*self),
    {
        match self {
            LxmfError::InsufficientData => LxmfErrorKind::InsufficientData,
            LxmfError::MalformedPayload => LxmfErrorKind::MalformedPayload,
            LxmfError::InvalidArgument => LxmfErrorKind::InvalidArgument,
            LxmfError::SignatureInvalid => LxmfErrorKind::SignatureInvalid,
            LxmfError::NotForUs => LxmfErrorKind::NotForUs,
            LxmfError::Reticulum(_) => LxmfErrorKind::Reticulum,
            LxmfError::SendTimeout => LxmfErrorKind::SendTimeout,
            LxmfError::NoPathToDestination(h) => LxmfErrorKind::NoPathToDestination(*h),
            LxmfError::LinkClosed => LxmfErrorKind::LinkClosed,
            LxmfError::LinkLost => LxmfErrorKind::LinkLost,
            LxmfError::Encoding(_) => LxmfErrorKind::Encoding,
            LxmfError::Decoding(_) => LxmfErrorKind::Decoding,
        }
    }
}

impl From<RnsError> for LxmfError {
    fn from(e: RnsError) -> (r: Self) {
        LxmfError::Reticulum(e)
    }
}

impl vstd::std_specs::convert::FromSpecImpl<RnsError> for LxmfError {
    open spec fn obeys_from_spec() -> bool {
        true
    }

    open spec fn from_spec(e: RnsError) -> LxmfError {
        LxmfError::Reticulum(e)
    }
}

impl From<rmp_serde::encode::Error> for LxmfError {
    fn from(e: rmp_serde::encode::Error) -> (r: Self) {
        LxmfError::Encoding(e)
    }
}

impl vstd::std_specs::convert::FromSpecImpl<rmp_serde::encode::Error> for LxmfError {
    open spec fn obeys_from_spec() -> bool {
        true
    }

    open spec fn from_spec(e: rmp_serde::encode::Error) -> LxmfError {
        LxmfError::Encoding(e)
    }
}

impl From<rmp_serde::decode::Error> for LxmfError {
    fn from(e: rmp_serde::decode::Error) -> (r: Self) {
        LxmfError::Decoding(e)
    }
}

impl vstd::std_specs::convert::FromSpecImpl<rmp_serde::decode::Error> for LxmfError {
    open spec fn obeys_from_spec() -> bool {
        true
    }

    open spec fn from_spec(e: rmp_serde::decode::Error) -> LxmfError {
        LxmfError::Decoding(e)
    }
}

} // verus!
