//! The decisions of the LXMF client: which announces are LXMF delivery
//! destinations, and which received data becomes a stored message. The
//! network side (links, packets, announces) is driven by the platform.

use std::sync::Arc;

use vstd::prelude::*;

use crate::bytes::{extend_bytes, same16, lemma_eq16};
use crate::destination::{address_for, announces, address_of, name_hash_of};
use crate::lxmf::message::{LxmfMessage, MessageModel, key_view, unpack_spec};
use crate::lxmf::store::{Direction, MessageStore, stored};
use crate::lxmf::wire::{
    ShapeModel, ValueShape, shape_of, binary_of, array_of, integer_of, msgpack_of, msgpack_value,
    string_display_of, binary_value, nil_value, array_value, integer_value, msgpack_encode,
    read_value, string_display, value_shape,
};
use crate::page::{decode_lossy, utf8_lossy};
use crate::text::{trim, trim_string};
use rmpv::Value;
use vstd::utf8::encode_utf8;

verus! {

/// LXMF application name, as used in the delivery destination name.
pub const APP_NAME: &'static str = "lxmf";

/// Aspect used for the delivery destination (`lxmf.delivery`).
pub const DELIVERY_ASPECT: &'static str = "delivery";

/// The address of the `lxmf.delivery` destination owned by `identity`.
pub fn lxmf_address_for(identity: &[u8; 16]) -> (r: [u8; 16])
    ensures
        r@ == address_of(name_hash_of(APP_NAME@, DELIVERY_ASPECT@), identity@),
{
    address_for(APP_NAME, DELIVERY_ASPECT, identity)
}

/// Whether an announce of `address` by `identity` is an LXMF delivery
/// destination.
pub fn is_lxmf_delivery(identity: &[u8; 16], address: &[u8; 16]) -> (r: bool)
    ensures
        r == (address@ == address_of(name_hash_of(APP_NAME@, DELIVERY_ASPECT@), identity@)),
{
    announces(APP_NAME, DELIVERY_ASPECT, identity, address)
}

/// The message a packet sent outside a link carries: the packet's
/// destination hash is put back in front of its data.
pub fn opportunistic_data(destination: &[u8; 16], data: &[u8]) -> (r: Vec<u8>)
    ensures
        r@ == destination@ + data@,
{
    let mut out: Vec<u8> = Vec::new();
    extend_bytes(&mut out, destination);
    extend_bytes(&mut out, data);
    out
}

/// What receiving `data` does: the message it unpacks to, when it unpacks
/// and is addressed to `us`.
pub open spec fn received(data: Seq<u8>, key: Option<Seq<u8>>, us: [u8; 16]) -> Option<MessageModel> {
    match unpack_spec(data, key) {
        Ok(m) => if m.destination_hash == us {
            Some(m)
        } else {
            None
        },
        Err(_) => None,
    }
}

/// Take received message bytes: unpack them (checking the signature with
/// the source's public key when known) and store the message as inbound
/// when it is addressed to us. Returns the stored message.
pub fn receive(
    store: &mut MessageStore,
    data: &[u8],
    source_key: Option<[u8; 32]>,
    us: &[u8; 16],
) -> (r: Option<Arc<LxmfMessage>>)
    requires
        old(store).wf(),
    ensures
        final(store).wf(),
        match received(data@, key_view(source_key), *us) {
            Some(m) => r is Some && (*r->Some_0)@ == m && final(store)@ == stored(
                old(store)@,
                m,
                Direction::Inbound,
            ),
            None => r is None && final(store)@ == old(store)@,
        },
{
    match LxmfMessage::unpack(data, source_key) {
        Ok(message) => {
            if same16(&message.destination_hash, us) {
                Some(store.push(message, Direction::Inbound))
            } else {
                None
            }
        },
        Err(_) => None,
    }
}

/// Whether `vals` are the announce values for `name`: the name as binary
/// (or nil), nil, and `[0]`.
pub open spec fn announce_values(name: Option<Seq<char>>, vals: Seq<Value>) -> bool {
    &&& vals.len() == 3
    &&& match name {
        Some(n) => vals[0] == binary_of(encode_utf8(n)),
        None => shape_of(vals[0]) is Nil,
    }
    &&& shape_of(vals[1]) is Nil
    &&& vals[2] == array_of(seq![integer_of(0)])
}

/// An optional name taken by its characters.
pub open spec fn name_view(name: Option<&str>) -> Option<Seq<char>> {
    match name {
        Some(n) => Some(n@),
        None => None,
    }
}

/// The encoding of `vals`, or nothing when it cannot be encoded.
pub open spec fn encoded_or_empty(vals: Seq<Value>) -> Seq<u8> {
    match msgpack_of(vals) {
        Some(b) => b,
        None => Seq::empty(),
    }
}

/// Announce data for a delivery identity: the MessagePack list
/// `[display_name, stamp_cost, [supported_functionality]]`, with the name as
/// binary (or nil), no stamp cost (nil) and functionality `[0]`; empty when
/// the list cannot be encoded.
pub fn delivery_app_data(display_name: Option<&str>) -> (r: Vec<u8>)
    ensures
        exists|vals: Seq<Value>|
            #[trigger] announce_values(name_view(display_name), vals) && r@ == encoded_or_empty(vals),
{
    let name = match display_name {
        Some(n) => binary_value(n.as_bytes()),
        None => nil_value(),
    };
    let mut functionality: Vec<Value> = Vec::new();
    functionality.push(integer_value(0));
    let mut data: Vec<Value> = Vec::new();
    data.push(name);
    data.push(nil_value());
    data.push(array_value(functionality));
    assert(functionality@ =~= seq![integer_of(0)]);
    let r = match msgpack_encode(&data) {
        Ok(b) => b,
        Err(_) => Vec::new(),
    };
    proof {
        assert(announce_values(name_view(display_name), data@));
        assert(r@ == encoded_or_empty(data@));
    }
    r
}

/// The name in a delivery announce's data: the first item of the
/// MessagePack list, a binary name read as lossy UTF-8 or a string as it
/// displays; `None` when there is none or it is blank.
pub open spec fn delivery_name_spec(app_data: Seq<u8>) -> Option<Seq<char>> {
    let name: Option<Seq<char>> = match msgpack_value(app_data) {
        Some(v) => match shape_of(v) {
            ShapeModel::Array(items) => if items.len() > 0 {
                match shape_of(items[0]) {
                    ShapeModel::Binary(b) => Some(utf8_lossy(b)),
                    ShapeModel::Str(_, _) => string_display_of(items[0]),
                    _ => None,
                }
            } else {
                None
            },
            _ => None,
        },
        None => None,
    };
    match name {
        Some(n) => if trim(n).len() == 0 {
            None
        } else {
            Some(n)
        },
        None => None,
    }
}

/// The display name from a delivery announce's data (see
/// [`delivery_name_spec`]).
pub fn delivery_name(app_data: &[u8]) -> (r: Option<String>)
    ensures
        match r {
            Some(s) => delivery_name_spec(app_data@) == Some(s@),
            None => delivery_name_spec(app_data@) is None,
        },
{
    let first: Option<Value> = match read_value(app_data) {
        Some(v) => match value_shape(&v) {
            ValueShape::Array(items) => if items.len() > 0 {
                let mut items = items;
                Some(items.swap_remove(0))
            } else {
                None
            },
            _ => None,
        },
        None => None,
    };
    let name: Option<String> = match first {
        Some(f) => match value_shape(&f) {
            ValueShape::Binary(b) => Some(decode_lossy(b.as_slice())),
            ValueShape::Str(_, _) => string_display(&f),
            _ => None,
        },
        None => None,
    };
    match name {
        Some(n) => {
            let t = trim_string(n.as_str());
            if t.as_str().is_empty() {
                None
            } else {
                Some(n)
            }
        },
        None => None,
    }
}

} // verus!
