//! Live search filters of the list screens.

use vstd::prelude::*;

use crate::context::{Conversation, NodeEntry};
use crate::text::{seq_contains, lowercase, to_lowercase, chars_of, contains_chars};

verus! {

/// Whether `c` is a visible ASCII character (`!` to `~`).
pub open spec fn is_ascii_graphic(c: char) -> bool {
    0x21 <= (c as u32) <= 0x7e
}

/// Whether a name or address matches a search filter: an empty filter
/// matches everything, otherwise the lowercased filter must occur in the
/// lowercased name or in the lowercased address hex.
pub open spec fn text_matches(name: Seq<char>, hex: Seq<char>, filter: Seq<char>) -> bool {
    filter.len() == 0 || seq_contains(lowercase(name), lowercase(filter)) || seq_contains(
        lowercase(hex),
        lowercase(filter),
    )
}

/// Whether a conversation matches the search filter.
pub open spec fn conversation_matches(c: Conversation, filter: Seq<char>) -> bool {
    text_matches(c.peer_name@, c.peer_hex@, filter)
}

/// Whether a node matches the search filter.
pub open spec fn node_matches(n: NodeEntry, filter: Seq<char>) -> bool {
    text_matches(n.name@, n.hex@, filter)
}

/// Whether `name` or `hex` matches `filter` (see [`text_matches`]).
pub fn matches_text(name: &str, hex: &str, filter: &str) -> (r: bool)
    ensures
        r == text_matches(name@, hex@, filter@),
{
    if filter.is_empty() {
        return true;
    }
    let q = to_lowercase(filter);
    let qv = chars_of(q.as_str());
    let n = to_lowercase(name);
    let nv = chars_of(n.as_str());
    if contains_chars(&nv, &qv) {
        return true;
    }
    let h = to_lowercase(hex);
    let hv = chars_of(h.as_str());
    contains_chars(&hv, &qv)
}

/// Whether a conversation matches the search filter (by display name or
/// address, case-insensitively).
pub fn filter_matches(conv: &Conversation, filter: &str) -> (r: bool)
    ensures
        r == conversation_matches(*conv, filter@),
{
    matches_text(conv.peer_name.as_str(), conv.peer_hex.as_str(), filter)
}

/// Whether a node matches the search filter (by display name or address,
/// case-insensitively).
pub fn node_filter_matches(node: &NodeEntry, filter: &str) -> (r: bool)
    ensures
        r == node_matches(*node, filter@),
{
    matches_text(node.name.as_str(), node.hex.as_str(), filter)
}

/// Indices of the first `n` conversations that match `filter`, in order.
pub open spec fn matching_conversations(cs: Seq<Conversation>, filter: Seq<char>, n: int) -> Seq<
    usize,
>
    decreases n,
{
    if n <= 0 {
        Seq::empty()
    } else if conversation_matches(cs[n - 1], filter) {
        matching_conversations(cs, filter, n - 1).push((n - 1) as usize)
    } else {
        matching_conversations(cs, filter, n - 1)
    }
}

/// Indices of the first `n` nodes that match `filter`, in order.
pub open spec fn matching_nodes(ns: Seq<NodeEntry>, filter: Seq<char>, n: int) -> Seq<usize>
    decreases n,
{
    if n <= 0 {
        Seq::empty()
    } else if node_matches(ns[n - 1], filter) {
        matching_nodes(ns, filter, n - 1).push((n - 1) as usize)
    } else {
        matching_nodes(ns, filter, n - 1)
    }
}

/// Indices of the conversations that match `filter`, in order.
pub fn filter_conversations(cs: &[Conversation], filter: &str) -> (r: Vec<usize>)
    ensures
        r@ == matching_conversations(cs@, filter@, cs@.len() as int),
{
    let mut r: Vec<usize> = Vec::new();
    let mut i: usize = 0;
    while i < cs.len()
        invariant
            i <= cs.len(),
            r@ == matching_conversations(cs@, filter@, i as int),
        decreases cs.len() - i,
    {
        if filter_matches(&cs[i], filter) {
            r.push(i);
        }
        i += 1;
    }
    r
}

/// Indices of the nodes that match `filter`, in order.
pub fn filter_nodes(ns: &[NodeEntry], filter: &str) -> (r: Vec<usize>)
    ensures
        r@ == matching_nodes(ns@, filter@, ns@.len() as int),
{
    let mut r: Vec<usize> = Vec::new();
    let mut i: usize = 0;
    while i < ns.len()
        invariant
            i <= ns.len(),
            r@ == matching_nodes(ns@, filter@, i as int),
        decreases ns.len() - i,
    {
        if node_filter_matches(&ns[i], filter) {
            r.push(i);
        }
        i += 1;
    }
    r
}

/// Every index that [`matching_conversations`] lists is in range and
/// matches, and every matching conversation is listed.
pub proof fn lemma_matching_conversations(cs: Seq<Conversation>, filter: Seq<char>, n: int)
    requires
        0 <= n <= cs.len(),
        n <= usize::MAX,
    ensures
        forall|k: int|
            0 <= k < matching_conversations(cs, filter, n).len() ==> {
                let j = #[trigger] matching_conversations(cs, filter, n)[k];
                j < n && conversation_matches(cs[j as int], filter)
            },
        forall|j: int|
            0 <= j < n && conversation_matches(cs[j], filter) ==> matching_conversations(
                cs,
                filter,
                n,
            ).contains(j as usize),
    decreases n,
{
    if n > 0 {
        lemma_matching_conversations(cs, filter, n - 1);
        let prev = matching_conversations(cs, filter, n - 1);
        let cur = matching_conversations(cs, filter, n);
        assert forall|k: int| 0 <= k < cur.len() implies {
            let j = #[trigger] cur[k];
            j < n && conversation_matches(cs[j as int], filter)
        } by {
            if k < prev.len() {
                assert(cur[k] == prev[k]);
                let j = prev[k];
                assert(j < n - 1 && conversation_matches(cs[j as int], filter));
            } else {
                assert(conversation_matches(cs[n - 1], filter));
                assert(cur[k] == (n - 1) as usize);
            }
        }
        if conversation_matches(cs[n - 1], filter) {
            assert forall|j: int|
                0 <= j < n && conversation_matches(cs[j], filter) implies matching_conversations(
                cs,
                filter,
                n,
            ).contains(j as usize) by {
                if j == n - 1 {
                    assert(matching_conversations(cs, filter, n)[prev.len() as int] == j as usize);
                } else {
                    let k = choose|k: int| 0 <= k < prev.len() && prev[k] == j as usize;
                    assert(matching_conversations(cs, filter, n)[k] == j as usize);
                }
            }
        }
    }
}

} // verus!
