//! NomadNet browsing: recognising node announces, naming nodes, and turning
//! a node's answer into a page.

use vstd::prelude::*;

use reticulum_sdk::error::RnsError;
use rmpv::Value;

use crate::destination::{address_for, announces, address_of, name_hash_of};
use crate::hex::hex_of;
use crate::lxmf::message::body_bytes;
use crate::lxmf::wire::{ShapeModel, ValueShape, shape_of, value_shape};
use crate::page::{Page, decode_lossy, micron, utf8_lossy};
use crate::screens::nomad_view::hex;
use crate::text::{trim, trim_string, starts_with, chars_of, string_of, append_str};
use crate::lxmf::wire::rns_error_text;

verus! {

/// NomadNet application name, as used in node destination names.
pub const APP_NAME: &'static str = "nomadnetwork";

/// Aspect of node destinations (`nomadnetwork.node`).
pub const NODE_ASPECT: &'static str = "node";

/// The page requested when no path is given.
pub const DEFAULT_PAGE_PATH: &'static str = "/page/index.mu";

/// Errors that can occur while browsing NomadNet.
#[derive(Debug)]
pub enum NomadError {
    /// No link could be established to the requested node.
    NoLink(String),
    /// The node did not answer in time.
    Timeout,
    /// The link closed while waiting for a response.
    LinkClosed,
    /// The node returned data that could not be interpreted as a page.
    InvalidResponse,
    /// A Reticulum layer error.
    Reticulum(RnsError),
}

impl From<RnsError> for NomadError {
    fn from(e: RnsError) -> (r: Self) {
        NomadError::Reticulum(e)
    }
}

impl vstd::std_specs::convert::FromSpecImpl<RnsError> for NomadError {
    open spec fn obeys_from_spec() -> bool {
        true
    }

    open spec fn from_spec(e: RnsError) -> NomadError {
        NomadError::Reticulum(e)
    }
}

impl NomadError {
    /// The error as shown to the user; a Reticulum error's own text follows
    /// its prefix.
    pub fn text(&self) -> (r: String)
        ensures
            match self {
                NomadError::NoLink(h) => r@ == "no link to node "@ + h@,
                NomadError::Timeout => r@ == "node did not answer in time"@,
                NomadError::LinkClosed => r@ == "link to node closed"@,
                NomadError::InvalidResponse => r@ == "invalid page response"@,
                NomadError::Reticulum(_) => starts_with(r@, "reticulum error: "@),
            },
    {
        match self {
            NomadError::NoLink(h) => {
                let mut v = chars_of("no link to node ");
                append_str(&mut v, h.as_str());
                string_of(&v)
            },
            NomadError::Timeout => string_of(&chars_of("node did not answer in time")),
            NomadError::LinkClosed => string_of(&chars_of("link to node closed")),
            NomadError::InvalidResponse => string_of(&chars_of("invalid page response")),
            NomadError::Reticulum(e) => {
                let t = rns_error_text(e);
                let mut v = chars_of("reticulum error: ");
                let ghost p = v@;
                append_str(&mut v, t.as_str());
                assert(v@.subrange(0, p.len() as int) =~= p);
                string_of(&v)
            },
        }
    }
}

/// The notice shown when a page cannot be fetched.
pub fn page_error_notice(e: &NomadError) -> (r: String)
    ensures
        exists|t: Seq<char>| r@ == "Page error: "@ + t && match e {
            NomadError::Reticulum(_) => starts_with(t, "reticulum error: "@),
            NomadError::NoLink(h) => t == "no link to node "@ + h@,
            NomadError::Timeout => t == "node did not answer in time"@,
            NomadError::LinkClosed => t == "link to node closed"@,
            NomadError::InvalidResponse => t == "invalid page response"@,
        },
{
    let t = e.text();
    let mut v = chars_of("Page error: ");
    append_str(&mut v, t.as_str());
    string_of(&v)
}

/// The address of the node destination owned by `identity`.
pub fn node_address_for(identity: &[u8; 16]) -> (r: [u8; 16])
    ensures
        r@ == address_of(name_hash_of(APP_NAME@, NODE_ASPECT@), identity@),
{
    address_for(APP_NAME, NODE_ASPECT, identity)
}

/// Whether an announce of `address` by `identity` is a NomadNet node.
pub fn is_nomad_node(identity: &[u8; 16], address: &[u8; 16]) -> (r: bool)
    ensures
        r == (address@ == address_of(name_hash_of(APP_NAME@, NODE_ASPECT@), identity@)),
{
    announces(APP_NAME, NODE_ASPECT, identity, address)
}

/// A node's name from its announce data (lossy UTF-8), unless blank.
pub open spec fn announce_name_spec(app_data: Seq<u8>) -> Option<Seq<char>> {
    if trim(utf8_lossy(app_data)).len() == 0 {
        None
    } else {
        Some(utf8_lossy(app_data))
    }
}

/// A node's name from its announce data, unless blank.
pub fn announce_name(app_data: &[u8]) -> (r: Option<String>)
    ensures
        match r {
            Some(s) => announce_name_spec(app_data@) == Some(s@),
            None => announce_name_spec(app_data@) is None,
        },
{
    let name = decode_lossy(app_data);
    let t = trim_string(name.as_str());
    if t.as_str().is_empty() {
        None
    } else {
        Some(name)
    }
}

/// The path to request: the default page when none is given.
pub fn page_path(path: &str) -> (r: &str)
    ensures
        r@ == if path@.len() == 0 {
            DEFAULT_PAGE_PATH@
        } else {
            path@
        },
{
    if path.is_empty() {
        DEFAULT_PAGE_PATH
    } else {
        path
    }
}

/// Whether a response value holds page bytes: a binary or string value.
pub open spec fn is_page_shape(s: ShapeModel) -> bool {
    s is Binary || s is Str
}

/// The page a node's response `data` holds, rendered with the node's
/// address as the link source: the bytes of a binary value, or of a valid
/// UTF-8 string (an invalid string gives an empty page); any other value is
/// an invalid response.
pub fn page_from_response(data: &Value, node: &[u8; 16]) -> (r: Result<Page, NomadError>)
    ensures
        match r {
            Ok(p) => is_page_shape(shape_of(*data)) && p@.source == hex_of(node@) && p@.raw
                == body_bytes(shape_of(*data)) && (p@.title, p@.lines) == micron(
                utf8_lossy(body_bytes(shape_of(*data))),
                hex_of(node@),
            ),
            Err(e) => !is_page_shape(shape_of(*data)) && e is InvalidResponse,
        },
{
    match value_shape(data) {
        ValueShape::Binary(b) => Ok(Page::from_bytes(b.as_slice(), hex(node))),
        ValueShape::Str(b, valid) => {
            let bytes: Vec<u8> = if valid {
                b
            } else {
                Vec::new()
            };
            Ok(Page::from_bytes(bytes.as_slice(), hex(node)))
        },
        _ => Err(NomadError::InvalidResponse),
    }
}

} // verus!
