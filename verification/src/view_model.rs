//! The view model the screens render: the conversation list built from the
//! message store and the discovered contacts, the open conversation's
//! messages, and the discovered nodes.
//!
//! Message times are handed in as milliseconds since the Unix epoch, one per
//! stored message, oldest first.

use vstd::prelude::*;

use crate::bytes::{same16, lemma_eq16};
use crate::context::{Conversation, ConversationModel, ChatMessage, ChatMessageModel, NodeEntry, NodeModel};
use crate::hex::{hex_of, hex_string};
use crate::lxmf::message::{LxmfMessage, MessageModel};
use crate::lxmf::store::{Direction, MessageStore, models, peer_positions, peer_of};
use crate::page::{utf8_lossy, decode_lossy};
use crate::text::{chars_of, string_of, append_str};

verus! {

/// A conversation being gathered from the messages: its peer, the latest
/// message's content and title, that message's time, and the unread count.
pub struct Gathered {
    pub peer: [u8; 16],
    pub content: Seq<char>,
    pub title: Seq<char>,
    pub ts: u64,
    pub unread: nat,
}

/// The other party of a message, as the conversation list sees it: the
/// sender of a received message, the recipient of a sent one.
pub open spec fn other_party(m: MessageModel) -> [u8; 16] {
    if m.incoming {
        m.source_hash
    } else {
        m.destination_hash
    }
}

/// When the conversation with `p` was last read (the first record for `p`),
/// or 0 when never.
pub open spec fn seen_at(seen: Seq<([u8; 16], u64)>, p: [u8; 16]) -> u64
    decreases seen.len(),
{
    if seen.len() == 0 {
        0
    } else if seen[0].0 == p {
        seen[0].1
    } else {
        seen_at(seen.drop_first(), p)
    }
}

/// The first position of `p` in `g`, or `g.len()` when absent.
pub open spec fn find_peer(g: Seq<Gathered>, p: [u8; 16]) -> int
    decreases g.len(),
{
    if g.len() == 0 {
        0
    } else {
        let k = find_peer(g.drop_last(), p);
        if k < g.len() - 1 {
            k
        } else if g.last().peer == p {
            g.len() - 1
        } else {
            g.len() as int
        }
    }
}

/// The conversations of the first `n` messages (times `ts`, read times
/// `seen`), in order of first appearance. A message at least as new as the
/// latest so far becomes the latest; a received message newer than the
/// last read (by more than a millisecond) is unread.
pub open spec fn gather(
    ms: Seq<MessageModel>,
    ts: Seq<u64>,
    seen: Seq<([u8; 16], u64)>,
    n: nat,
) -> Seq<Gathered>
    decreases n,
{
    if n == 0 {
        Seq::empty()
    } else {
        let g = gather(ms, ts, seen, (n - 1) as nat);
        let m = ms[n - 1];
        let t = ts[n - 1];
        let p = other_party(m);
        let k = find_peer(g, p);
        let e = if k < g.len() {
            g[k]
        } else {
            Gathered { peer: p, content: Seq::empty(), title: Seq::empty(), ts: 0, unread: 0 }
        };
        let e1 = if t >= e.ts {
            Gathered { content: utf8_lossy(m.content), title: utf8_lossy(m.title), ts: t, ..e }
        } else {
            e
        };
        let e2 = if m.incoming && t > seen_at(seen, p) + 1 {
            Gathered { unread: e1.unread + 1, ..e1 }
        } else {
            e1
        };
        if k < g.len() {
            g.update(k, e2)
        } else {
            g.push(e2)
        }
    }
}

/// `g` with the first `n` contacts added that have no conversation yet.
pub open spec fn add_contacts(g: Seq<Gathered>, cs: Seq<ConversationModel>, n: nat) -> Seq<Gathered>
    decreases n,
{
    if n == 0 {
        g
    } else {
        let g2 = add_contacts(g, cs, (n - 1) as nat);
        let c = cs[n - 1];
        if find_peer(g2, c.peer) < g2.len() {
            g2
        } else {
            g2.push(
                Gathered {
                    peer: c.peer,
                    content: c.last_content,
                    title: c.last_title,
                    ts: c.last_ts_ms,
                    unread: 0,
                },
            )
        }
    }
}

/// The name of `p` among the contacts from `i` on: the first non-empty
/// title of a contact with `p`.
pub open spec fn contact_name(cs: Seq<ConversationModel>, p: [u8; 16], i: nat) -> Seq<char>
    decreases cs.len() - i,
{
    if i >= cs.len() {
        Seq::empty()
    } else if cs[i as int].peer == p && cs[i as int].last_title.len() > 0 {
        cs[i as int].last_title
    } else {
        contact_name(cs, p, i + 1)
    }
}

/// The list entry of a gathered conversation.
pub open spec fn entry_of(e: Gathered, cs: Seq<ConversationModel>) -> ConversationModel {
    ConversationModel {
        peer: e.peer,
        peer_hex: hex_of(e.peer@),
        peer_name: contact_name(cs, e.peer, 0),
        last_content: e.content,
        last_title: e.title,
        unread: e.unread as u32,
        last_ts_ms: e.ts,
    }
}

/// The conversation list before ordering: the conversations of the
/// messages, then contacts without messages.
pub open spec fn conversation_entries(
    ms: Seq<MessageModel>,
    ts: Seq<u64>,
    seen: Seq<([u8; 16], u64)>,
    cs: Seq<ConversationModel>,
) -> Seq<ConversationModel> {
    add_contacts(gather(ms, ts, seen, ms.len()), cs, cs.len()).map_values(
        |e: Gathered| entry_of(e, cs),
    )
}

/// Whether `idx` lists each of `0..n` exactly once.
pub open spec fn is_permutation(idx: Seq<int>, n: nat) -> bool {
    &&& idx.len() == n
    &&& forall|i: int| 0 <= i < n ==> 0 <= #[trigger] idx[i] < n
    &&& forall|i: int, j: int| 0 <= i < j < n ==> #[trigger] idx[i] != #[trigger] idx[j]
}

/// The abstract values of a list of conversations.
pub open spec fn conversations_view(cs: Seq<Conversation>) -> Seq<ConversationModel> {
    cs.map_values(|c: Conversation| c@)
}

/// Gathered conversations with distinct peers.
pub open spec fn distinct_peers(g: Seq<Gathered>) -> bool {
    forall|i: int, j: int| 0 <= i < j < g.len() ==> #[trigger] g[i].peer != #[trigger] g[j].peer
}

/// In a list with distinct peers, the position of a peer is where it is.
proof fn lemma_find_peer(g: Seq<Gathered>, p: [u8; 16], k: int)
    requires
        distinct_peers(g),
        0 <= k <= g.len(),
        k < g.len() ==> g[k].peer == p,
        k == g.len() ==> forall|i: int| 0 <= i < g.len() ==> (#[trigger] g[i]).peer != p,
    ensures
        find_peer(g, p) == k,
    decreases g.len(),
{
    if g.len() > 0 {
        let d = g.drop_last();
        if k < g.len() - 1 {
            assert(d[k] == g[k]);
            lemma_find_peer(d, p, k);
        } else {
            assert forall|i: int| 0 <= i < d.len() implies (#[trigger] d[i]).peer != p by {
                assert(d[i] == g[i]);
            }
            lemma_find_peer(d, p, d.len() as int);
        }
    }
}

/// How many of the first `n` messages are received from `p` after the
/// conversation with `p` was last read (by more than a millisecond).
pub open spec fn unread_from(
    ms: Seq<MessageModel>,
    ts: Seq<u64>,
    seen: Seq<([u8; 16], u64)>,
    p: [u8; 16],
    n: nat,
) -> nat
    decreases n,
{
    if n == 0 {
        0
    } else {
        unread_from(ms, ts, seen, p, (n - 1) as nat) + if ms[n - 1].incoming && ms[n
            - 1].source_hash == p && ts[n - 1] > seen_at(seen, p) + 1 {
            1nat
        } else {
            0nat
        }
    }
}

/// The first position of `p` in `g` is where `p` is, or the end when `p`
/// is absent.
proof fn lemma_find_peer_at(g: Seq<Gathered>, p: [u8; 16])
    ensures
        0 <= find_peer(g, p) <= g.len(),
        find_peer(g, p) < g.len() ==> g[find_peer(g, p)].peer == p,
        find_peer(g, p) == g.len() ==> forall|i: int| 0 <= i < g.len() ==> (#[trigger] g[i]).peer != p,
    decreases g.len(),
{
    if g.len() > 0 {
        let d = g.drop_last();
        lemma_find_peer_at(d, p);
        assert forall|i: int| 0 <= i < d.len() implies #[trigger] d[i] == g[i] by {}
        if find_peer(g, p) == g.len() {
            assert forall|i: int| 0 <= i < g.len() implies (#[trigger] g[i]).peer != p by {
                if i < d.len() {
                    assert(d[i] == g[i]);
                }
            }
        }
    }
}

/// No more of the first `n` messages are unread than there are messages.
proof fn lemma_unread_bound(ms: Seq<MessageModel>, ts: Seq<u64>, seen: Seq<([u8; 16], u64)>, p: [u8; 16], n: nat)
    ensures
        unread_from(ms, ts, seen, p, n) <= n,
    decreases n,
{
    if n > 0 {
        lemma_unread_bound(ms, ts, seen, p, (n - 1) as nat);
    }
}

/// Each gathered conversation counts every unread message from its peer,
/// one by one, the peers are distinct, and a peer without a conversation
/// has no unread message.
proof fn lemma_gather_unread(ms: Seq<MessageModel>, ts: Seq<u64>, seen: Seq<([u8; 16], u64)>, n: nat)
    requires
        n <= ms.len(),
        n <= ts.len(),
    ensures
        distinct_peers(gather(ms, ts, seen, n)),
        forall|q: int|
            0 <= q < gather(ms, ts, seen, n).len() ==> (#[trigger] gather(ms, ts, seen, n)[q]).unread
                == unread_from(ms, ts, seen, gather(ms, ts, seen, n)[q].peer, n),
        forall|p: [u8; 16]|
            (forall|q: int|
                0 <= q < gather(ms, ts, seen, n).len() ==> (#[trigger] gather(ms, ts, seen, n)[q]).peer
                    != p) ==> #[trigger] unread_from(ms, ts, seen, p, n) == 0,
    decreases n,
{
    if n > 0 {
        let n1 = (n - 1) as nat;
        lemma_gather_unread(ms, ts, seen, n1);
        let g = gather(ms, ts, seen, n1);
        let m = ms[n1 as int];
        let p = other_party(m);
        lemma_find_peer_at(g, p);
        let g2 = gather(ms, ts, seen, n);
        let k = find_peer(g, p);
        if k < g.len() {
            assert(g2 == g.update(k, g2[k]));
        }
        assert forall|q: int| 0 <= q < g2.len() implies (#[trigger] g2[q]).unread == unread_from(
            ms,
            ts,
            seen,
            g2[q].peer,
            n,
        ) by {
            if q == k {
                assert(g2[q].peer == p);
                if k == g.len() {
                    assert(unread_from(ms, ts, seen, p, n1) == 0);
                }
            } else {
                assert(g2[q] == g[q]);
                assert(g[q].peer != p);
            }
        }
        assert forall|r: [u8; 16]|
            (forall|q: int| 0 <= q < g2.len() ==> (#[trigger] g2[q]).peer != r) implies #[trigger] unread_from(
            ms,
            ts,
            seen,
            r,
            n,
        ) == 0 by {
            assert(g2[k].peer == p);
            assert(r != p);
            assert forall|q: int| 0 <= q < g.len() implies (#[trigger] g[q]).peer != r by {
                assert(g2[q].peer == g[q].peer);
            }
            assert(unread_from(ms, ts, seen, r, n1) == 0);
            assert(m.incoming ==> m.source_hash == p);
        }
    }
}

/// Adding contacts keeps each conversation's count of unread messages
/// right: a contact added for a peer without a conversation has none.
proof fn lemma_add_contacts_unread(
    g: Seq<Gathered>,
    cs: Seq<ConversationModel>,
    k: nat,
    ms: Seq<MessageModel>,
    ts: Seq<u64>,
    seen: Seq<([u8; 16], u64)>,
    n: nat,
)
    requires
        k <= cs.len(),
        forall|q: int| 0 <= q < g.len() ==> (#[trigger] g[q]).unread == unread_from(ms, ts, seen, g[q].peer, n),
        forall|p: [u8; 16]|
            (forall|q: int| 0 <= q < g.len() ==> (#[trigger] g[q]).peer != p) ==> #[trigger] unread_from(
                ms,
                ts,
                seen,
                p,
                n,
            ) == 0,
    ensures
        forall|q: int|
            0 <= q < add_contacts(g, cs, k).len() ==> (#[trigger] add_contacts(g, cs, k)[q]).unread
                == unread_from(ms, ts, seen, add_contacts(g, cs, k)[q].peer, n),
        forall|p: [u8; 16]|
            (forall|q: int|
                0 <= q < add_contacts(g, cs, k).len() ==> (#[trigger] add_contacts(g, cs, k)[q]).peer
                    != p) ==> #[trigger] unread_from(ms, ts, seen, p, n) == 0,
    decreases k,
{
    if k == 0 {
        let g3 = add_contacts(g, cs, k);
        assert(g3 == g);
        assert forall|p: [u8; 16]|
            (forall|q: int| 0 <= q < g3.len() ==> (#[trigger] g3[q]).peer != p) implies #[trigger] unread_from(
            ms,
            ts,
            seen,
            p,
            n,
        ) == 0 by {
            assert forall|q: int| 0 <= q < g.len() implies (#[trigger] g[q]).peer != p by {
                assert(g3[q] == g[q]);
            }
        }
    } else {
        let k1 = (k - 1) as nat;
        lemma_add_contacts_unread(g, cs, k1, ms, ts, seen, n);
        let g2 = add_contacts(g, cs, k1);
        let c = cs[k1 as int];
        lemma_find_peer_at(g2, c.peer);
        let g3 = add_contacts(g, cs, k);
        if find_peer(g2, c.peer) < g2.len() {
            assert(g3 == g2);
            assert forall|p: [u8; 16]|
                (forall|q: int| 0 <= q < g3.len() ==> (#[trigger] g3[q]).peer != p) implies #[trigger] unread_from(
                ms,
                ts,
                seen,
                p,
                n,
            ) == 0 by {
                assert forall|q: int| 0 <= q < g2.len() implies (#[trigger] g2[q]).peer != p by {
                    assert(g3[q] == g2[q]);
                }
            }
        } else {
            assert forall|q: int| 0 <= q < g3.len() implies (#[trigger] g3[q]).unread == unread_from(
                ms,
                ts,
                seen,
                g3[q].peer,
                n,
            ) by {
                if q < g2.len() {
                    assert(g3[q] == g2[q]);
                } else {
                    assert(g3[q].peer == c.peer);
                }
            }
            assert forall|p: [u8; 16]|
                (forall|q: int| 0 <= q < g3.len() ==> (#[trigger] g3[q]).peer != p) implies #[trigger] unread_from(
                ms,
                ts,
                seen,
                p,
                n,
            ) == 0 by {
                assert forall|q: int| 0 <= q < g2.len() implies (#[trigger] g2[q]).peer != p by {
                    assert(g3[q] == g2[q]);
                }
            }
        }
    }
}

/// Each conversation's unread count is the number of messages received
/// from its peer since the conversation was last read (later than the read
/// time by more than a millisecond): every such message counts once,
/// however many there are, and a contact without messages has none.
pub proof fn lemma_unread_counts_messages(
    ms: Seq<MessageModel>,
    ts: Seq<u64>,
    seen: Seq<([u8; 16], u64)>,
    cs: Seq<ConversationModel>,
)
    requires
        ts.len() == ms.len(),
        ms.len() <= u32::MAX,
    ensures
        forall|i: int|
            0 <= i < conversation_entries(ms, ts, seen, cs).len() ==> (#[trigger] conversation_entries(
                ms,
                ts,
                seen,
                cs,
            )[i]).unread == unread_from(ms, ts, seen, conversation_entries(ms, ts, seen, cs)[i].peer, ms.len()),
{
    let n = ms.len();
    let g = gather(ms, ts, seen, n);
    lemma_gather_unread(ms, ts, seen, n);
    lemma_add_contacts_unread(g, cs, cs.len(), ms, ts, seen, n);
    let a = add_contacts(g, cs, cs.len());
    assert forall|i: int|
        0 <= i < conversation_entries(ms, ts, seen, cs).len() implies (#[trigger] conversation_entries(
        ms,
        ts,
        seen,
        cs,
    )[i]).unread == unread_from(ms, ts, seen, conversation_entries(ms, ts, seen, cs)[i].peer, n) by {
        assert(conversation_entries(ms, ts, seen, cs)[i] == entry_of(a[i], cs));
        assert(a[i].unread == unread_from(ms, ts, seen, a[i].peer, n));
        lemma_unread_bound(ms, ts, seen, a[i].peer, n);
    }
}

/// A conversation being gathered, as held while building the list.
struct GatherEntry {
    peer: [u8; 16],
    content: String,
    title: String,
    ts: u64,
    unread: u32,
}

spec fn gview(e: GatherEntry) -> Gathered {
    Gathered {
        peer: e.peer,
        content: e.content@,
        title: e.title@,
        ts: e.ts,
        unread: e.unread as nat,
    }
}

spec fn gviews(v: Seq<GatherEntry>) -> Seq<Gathered> {
    v.map_values(|e: GatherEntry| gview(e))
}

/// The position of `p` in `g`, or `g.len()`.
fn find_entry(g: &Vec<GatherEntry>, p: &[u8; 16]) -> (r: usize)
    ensures
        r <= g@.len(),
        r < g@.len() ==> g@[r as int].peer == *p,
        r == g@.len() ==> forall|i: int| 0 <= i < g@.len() ==> (#[trigger] g@[i]).peer != *p,
{
    let mut k: usize = 0;
    while k < g.len()
        invariant
            k <= g@.len(),
            forall|i: int| 0 <= i < k ==> (#[trigger] g@[i]).peer != *p,
        decreases g@.len() - k,
    {
        if same16(&g[k].peer, p) {
            return k;
        }
        k += 1;
    }
    k
}

/// When the conversation with `p` was last read (see [`seen_at`]).
fn seen_lookup(seen: &[([u8; 16], u64)], p: &[u8; 16]) -> (r: u64)
    ensures
        r == seen_at(seen@, *p),
{
    let mut i: usize = 0;
    assert(seen@.skip(0) =~= seen@);
    while i < seen.len()
        invariant
            i <= seen@.len(),
            seen_at(seen@, *p) == seen_at(seen@.skip(i as int), *p),
        decreases seen@.len() - i,
    {
        assert(seen@.skip(i as int)[0] == seen@[i as int]);
        if same16(&seen[i].0, p) {
            return seen[i].1;
        }
        assert(seen@.skip(i as int).drop_first() =~= seen@.skip(i + 1));
        i += 1;
    }
    0
}

/// The conversations of all stored messages (see [`gather`]).
fn gather_all(store: &MessageStore, ts: &[u64], seen: &[([u8; 16], u64)]) -> (r: Vec<GatherEntry>)
    requires
        ts@.len() == store@.messages.len(),
        store@.messages.len() <= u32::MAX,
    ensures
        gviews(r@) == gather(store@.messages, ts@, seen@, store@.messages.len()),
        distinct_peers(gviews(r@)),
{
    let all = store.all();
    let ghost ms = store@.messages;
    let mut g: Vec<GatherEntry> = Vec::new();
    let mut i: usize = 0;
    while i < all.len()
        invariant
            i <= all@.len(),
            models(all@) == ms,
            ts@.len() == ms.len(),
            ms.len() <= u32::MAX,
            gviews(g@) == gather(ms, ts@, seen@, i as nat),
            distinct_peers(gviews(g@)),
            forall|q: int| 0 <= q < g@.len() ==> (#[trigger] g@[q]).unread <= i,
        decreases all@.len() - i,
    {
        let m: &LxmfMessage = &all[i];
        assert(m@ == ms[i as int]);
        let t = ts[i];
        let p = if m.incoming {
            m.source_hash
        } else {
            m.destination_hash
        };
        let k = find_entry(&g, &p);
        proof {
            assert forall|q: int| 0 <= q < g@.len() implies (#[trigger] gviews(g@)[q]).peer == g@[q].peer by {}
            if k == g@.len() {
                assert forall|q: int| 0 <= q < gviews(g@).len() implies (#[trigger] gviews(g@)[q]).peer != p by {
                    assert(gviews(g@)[q].peer == g@[q].peer);
                }
            }
            lemma_find_peer(gviews(g@), p, k as int);
        }
        let mut e = if k < g.len() {
            GatherEntry {
                peer: g[k].peer,
                content: g[k].content.clone(),
                title: g[k].title.clone(),
                ts: g[k].ts,
                unread: g[k].unread,
            }
        } else {
            GatherEntry { peer: p, content: String::new(), title: String::new(), ts: 0, unread: 0 }
        };
        if t >= e.ts {
            e.content = decode_lossy(m.content.as_slice());
            e.title = decode_lossy(m.title.as_slice());
            e.ts = t;
        }
        let last = seen_lookup(seen, &p);
        if m.incoming && t > last && t - last > 1 {
            e.unread = e.unread + 1;
        }
        let ghost before = g@;
        if k < g.len() {
            g.set(k, e);
            assert(gviews(g@) =~= gviews(before).update(k as int, gview(e)));
        } else {
            g.push(e);
            assert(gviews(g@) =~= gviews(before).push(gview(e)));
        }
        proof {
            assert forall|a: int, b: int| 0 <= a < b < gviews(g@).len() implies #[trigger] gviews(g@)[a].peer
                != #[trigger] gviews(g@)[b].peer by {
                if k < before.len() {
                    if a != k && b != k {
                        assert(gviews(g@)[a] == gviews(before)[a]);
                        assert(gviews(g@)[b] == gviews(before)[b]);
                    } else if a == k {
                        assert(gviews(g@)[b] == gviews(before)[b]);
                        assert(gviews(before)[k as int].peer == p);
                    } else {
                        assert(gviews(g@)[a] == gviews(before)[a]);
                        assert(gviews(before)[k as int].peer == p);
                    }
                } else {
                    if b == before.len() {
                        assert(gviews(g@)[a] == gviews(before)[a]);
                        assert(before[a].peer != p);
                    } else {
                        assert(gviews(g@)[a] == gviews(before)[a]);
                        assert(gviews(g@)[b] == gviews(before)[b]);
                    }
                }
            }
        }
        i += 1;
    }
    g
}

/// The gathered conversations with the contacts added (see
/// [`add_contacts`]).
fn add_all_contacts(g: &mut Vec<GatherEntry>, contacts: &[Conversation])
    requires
        distinct_peers(gviews(old(g)@)),
    ensures
        gviews(final(g)@) == add_contacts(
            gviews(old(g)@),
            conversations_view(contacts@),
            contacts@.len(),
        ),
        distinct_peers(gviews(final(g)@)),
        forall|q: int| 0 <= q < final(g)@.len() ==> (#[trigger] final(g)@[q]).unread <= u32::MAX,
{
    let ghost cs = conversations_view(contacts@);
    let ghost g0 = gviews(g@);
    let mut i: usize = 0;
    while i < contacts.len()
        invariant
            i <= contacts@.len(),
            cs == conversations_view(contacts@),
            gviews(g@) == add_contacts(g0, cs, i as nat),
            distinct_peers(gviews(g@)),
        decreases contacts@.len() - i,
    {
        let c = &contacts[i];
        assert(cs[i as int] == c@);
        let k = find_entry(g, &c.peer);
        proof {
            if k == g@.len() {
                assert forall|q: int| 0 <= q < gviews(g@).len() implies (#[trigger] gviews(g@)[q]).peer
                    != c.peer by {
                    assert(gviews(g@)[q].peer == g@[q].peer);
                }
            } else {
                assert(gviews(g@)[k as int].peer == g@[k as int].peer);
            }
            lemma_find_peer(gviews(g@), c.peer, k as int);
        }
        if k == g.len() {
            let ghost before = g@;
            let e = GatherEntry {
                peer: c.peer,
                content: c.last_content.clone(),
                title: c.last_title.clone(),
                ts: c.last_ts_ms,
                unread: 0,
            };
            g.push(e);
            assert(gviews(g@) =~= gviews(before).push(gview(e)));
            proof {
                assert forall|a: int, b: int| 0 <= a < b < gviews(g@).len() implies #[trigger] gviews(
                    g@,
                )[a].peer != #[trigger] gviews(g@)[b].peer by {
                    assert(gviews(g@)[a] == gviews(before)[a]);
                    if b < before.len() {
                        assert(gviews(g@)[b] == gviews(before)[b]);
                    } else {
                        assert(before[a].peer != c.peer);
                    }
                }
            }
        }
        i += 1;
    }
}

/// The name of `p` among the contacts (see [`contact_name`]).
fn name_of(contacts: &[Conversation], p: &[u8; 16]) -> (r: String)
    ensures
        r@ == contact_name(conversations_view(contacts@), *p, 0),
{
    let ghost cs = conversations_view(contacts@);
    let mut i: usize = 0;
    while i < contacts.len()
        invariant
            i <= contacts@.len(),
            cs == conversations_view(contacts@),
            contact_name(cs, *p, 0) == contact_name(cs, *p, i as nat),
        decreases contacts@.len() - i,
    {
        assert(cs[i as int] == contacts@[i as int]@);
        if same16(&contacts[i].peer, p) && !contacts[i].last_title.as_str().is_empty() {
            return contacts[i].last_title.clone();
        }
        i += 1;
    }
    String::new()
}

/// Build the conversation list: the conversations of the stored messages
/// (`ts_ms` holds each message's time; `last_seen` when each peer's
/// conversation was last read), then contacts without messages, newest
/// first.
pub fn conversation_list(
    store: &MessageStore,
    ts_ms: &[u64],
    last_seen: &[([u8; 16], u64)],
    contacts: &[Conversation],
) -> (r: Vec<Conversation>)
    requires
        ts_ms@.len() == store@.messages.len(),
        store@.messages.len() <= u32::MAX,
    ensures
        ({
            let l = conversation_entries(
                store@.messages,
                ts_ms@,
                last_seen@,
                conversations_view(contacts@),
            );
            &&& r@.len() == l.len()
            &&& forall|i: int, j: int|
                0 <= i < j < r@.len() ==> (#[trigger] r@[i]).last_ts_ms >= (#[trigger] r@[j]).last_ts_ms
            &&& exists|idx: Seq<int>|
                is_permutation(idx, l.len()) && forall|i: int|
                    0 <= i < r@.len() ==> #[trigger] conversations_view(r@)[i] == l[idx[i]]
        }),
        forall|i: int|
            0 <= i < r@.len() ==> (#[trigger] conversations_view(r@)[i]).unread == unread_from(
                store@.messages,
                ts_ms@,
                last_seen@,
                conversations_view(r@)[i].peer,
                store@.messages.len(),
            ),
{
    let mut g = gather_all(store, ts_ms, last_seen);
    add_all_contacts(&mut g, contacts);
    let ghost cs = conversations_view(contacts@);
    let ghost gs = gviews(g@);
    let ghost l = gs.map_values(|e: Gathered| entry_of(e, cs));
    assert(l == conversation_entries(store@.messages, ts_ms@, last_seen@, cs));
    // Order positions newest first, keeping the gathering order among equal
    // times.
    let mut order: Vec<usize> = Vec::new();
    let mut k: usize = 0;
    while k < g.len()
        invariant
            k <= g@.len(),
            order@.len() == k,
            forall|a: int| 0 <= a < k ==> (#[trigger] order@[a]) < k,
            forall|a: int, b: int| 0 <= a < b < k ==> #[trigger] order@[a] != #[trigger] order@[b],
            forall|a: int, b: int|
                0 <= a < b < k ==> g@[#[trigger] order@[a] as int].ts >= g@[#[trigger] order@[b] as int].ts,
        decreases g@.len() - k,
    {
        let t = g[k].ts;
        let mut pos: usize = 0;
        while pos < order.len() && g[order[pos]].ts >= t
            invariant
                pos <= order@.len(),
                order@.len() == k,
                k < g@.len(),
                t == g@[k as int].ts,
                forall|a: int| 0 <= a < k ==> (#[trigger] order@[a]) < k,
                forall|q: int| 0 <= q < pos ==> g@[#[trigger] order@[q] as int].ts >= t,
            decreases order@.len() - pos,
        {
            pos += 1;
        }
        let ghost before = order@;
        order.insert(pos, k);
        proof {
            assert forall|a: int, b: int| 0 <= a < b < k + 1 implies g@[#[trigger] order@[a] as int].ts
                >= g@[#[trigger] order@[b] as int].ts by {
                if b < pos {
                    assert(order@[a] == before[a] && order@[b] == before[b]);
                } else if b == pos {
                    assert(order@[a] == before[a]);
                } else if a < pos {
                    assert(order@[a] == before[a] && order@[b] == before[b - 1]);
                } else if a == pos {
                    assert(order@[b] == before[b - 1]);
                    if (pos as int) < before.len() {
                        assert(g@[before[pos as int] as int].ts < t);
                    }
                } else {
                    assert(order@[a] == before[a - 1] && order@[b] == before[b - 1]);
                }
            }
            assert forall|a: int, b: int| 0 <= a < b < k + 1 implies #[trigger] order@[a]
                != #[trigger] order@[b] by {
                if b < pos {
                    assert(order@[a] == before[a] && order@[b] == before[b]);
                } else if b == pos {
                    assert(order@[a] == before[a]);
                } else if a < pos {
                    assert(order@[a] == before[a] && order@[b] == before[b - 1]);
                } else if a == pos {
                    assert(order@[b] == before[b - 1]);
                } else {
                    assert(order@[a] == before[a - 1] && order@[b] == before[b - 1]);
                }
            }
            assert forall|a: int| 0 <= a < k + 1 implies (#[trigger] order@[a]) < k + 1 by {
                if a < pos {
                    assert(order@[a] == before[a]);
                } else if a > pos {
                    assert(order@[a] == before[a - 1]);
                }
            }
        }
        k += 1;
    }
    let mut out: Vec<Conversation> = Vec::new();
    let mut j: usize = 0;
    while j < order.len()
        invariant
            j <= order@.len(),
            order@.len() == g@.len(),
            gs == gviews(g@),
            l == gs.map_values(|e: Gathered| entry_of(e, cs)),
            cs == conversations_view(contacts@),
            forall|a: int| 0 <= a < order@.len() ==> (#[trigger] order@[a]) < g@.len(),
            out@.len() == j,
            forall|a: int|
                0 <= a < j ==> #[trigger] conversations_view(out@)[a] == l[order@[a] as int],
            forall|q: int| 0 <= q < g@.len() ==> (#[trigger] g@[q]).unread <= u32::MAX,
        decreases order@.len() - j,
    {
        let e = &g[order[j]];
        assert(gs[order@[j as int] as int] == gview(*e));
        let peer_name = name_of(contacts, &e.peer);
        let c = Conversation {
            peer: e.peer,
            peer_hex: hex_string(&e.peer),
            peer_name,
            last_content: e.content.clone(),
            last_title: e.title.clone(),
            unread: e.unread,
            last_ts_ms: e.ts,
        };
        let ghost prev = out@;
        out.push(c);
        assert(conversations_view(out@) =~= conversations_view(prev).push(c@));
        j += 1;
    }
    proof {
        let idx = order@.map_values(|x: usize| x as int);
        assert(is_permutation(idx, l.len()));
        assert forall|i: int| 0 <= i < out@.len() implies #[trigger] conversations_view(out@)[i]
            == l[idx[i]] by {}
        lemma_unread_counts_messages(store@.messages, ts_ms@, last_seen@, cs);
        assert forall|i: int| 0 <= i < out@.len() implies (#[trigger] conversations_view(out@)[i]).unread
            == unread_from(
            store@.messages,
            ts_ms@,
            last_seen@,
            conversations_view(out@)[i].peer,
            store@.messages.len(),
        ) by {
            assert(conversations_view(out@)[i] == l[idx[i]]);
            assert(0 <= idx[i] < l.len());
        }
        assert forall|i: int, j2: int| 0 <= i < j2 < out@.len() implies (#[trigger] out@[i]).last_ts_ms
            >= (#[trigger] out@[j2]).last_ts_ms by {
            assert(out@[i]@ == conversations_view(out@)[i]);
            assert(out@[j2]@ == conversations_view(out@)[j2]);
        }
    }
    out
}

/// The messages of the conversation with `peer`, oldest first (`ts_ms`
/// holds each stored message's time).
pub fn chat_messages(store: &MessageStore, ts_ms: &[u64], peer: &[u8; 16]) -> (r: Vec<ChatMessage>)
    requires
        store.wf(),
        ts_ms@.len() == store@.messages.len(),
    ensures
        r@.map_values(|c: ChatMessage| c@) == peer_positions(
            store@.messages,
            store@.directions,
            *peer,
            store@.messages.len(),
        ).map_values(|i: usize| chat_entry(store@.messages[i as int], ts_ms@[i as int])),
{
    proof {
        crate::lxmf::store::lemma_store_bounded(store);
    }
    let all = store.all();
    let ghost ms = store@.messages;
    let ghost ds = store@.directions;
    let mut out: Vec<ChatMessage> = Vec::new();
    let mut i: usize = 0;
    while i < all.len()
        invariant
            i <= all@.len(),
            models(all@) == ms,
            ms == store@.messages,
            ds == store@.directions,
            ts_ms@.len() == ms.len(),
            ds.len() == ms.len(),
            ms.len() <= usize::MAX,
            out@.map_values(|c: ChatMessage| c@) == peer_positions(ms, ds, *peer, i as nat).map_values(
                |q: usize| chat_entry(ms[q as int], ts_ms@[q as int]),
            ),
        decreases all@.len() - i,
    {
        let m: &LxmfMessage = &all[i];
        assert(m@ == ms[i as int]);
        let d = match store.direction_of(i) {
            Some(d) => d,
            None => Direction::Inbound,
        };
        let p = match d {
            Direction::Inbound => m.source_hash,
            Direction::Outbound => m.destination_hash,
        };
        let ghost prev = out@;
        let ghost pos = peer_positions(ms, ds, *peer, i as nat);
        if same16(&p, peer) {
            let c = ChatMessage {
                incoming: m.incoming,
                title: decode_lossy(m.title.as_slice()),
                content: decode_lossy(m.content.as_slice()),
                ts_ms: ts_ms[i],
            };
            out.push(c);
            proof {
                assert(peer_positions(ms, ds, *peer, (i + 1) as nat) == pos.push(i));
                assert(out@.map_values(|c: ChatMessage| c@) =~= prev.map_values(|c: ChatMessage| c@).push(c@));
                assert(pos.push(i).map_values(|q: usize| chat_entry(ms[q as int], ts_ms@[q as int]))
                    =~= pos.map_values(|q: usize| chat_entry(ms[q as int], ts_ms@[q as int])).push(
                    chat_entry(ms[i as int], ts_ms@[i as int]),
                ));
            }
        } else {
            proof {
                assert(peer_positions(ms, ds, *peer, (i + 1) as nat) == pos);
            }
        }
        i += 1;
    }
    out
}

/// The chat line of message `m` sent or received at `ts`.
pub open spec fn chat_entry(m: MessageModel, ts: u64) -> ChatMessageModel {
    ChatMessageModel {
        incoming: m.incoming,
        title: utf8_lossy(m.title),
        content: utf8_lossy(m.content),
        ts_ms: ts,
    }
}

/// An optional name, or the empty text.
pub open spec fn name_or_empty(name: Option<String>) -> Seq<char> {
    match name {
        Some(n) => n@,
        None => Seq::empty(),
    }
}

/// Record an LXMF contact discovered from its announce, unless known; the
/// name doubles as the title shown until messages arrive. Whether it was new.
pub fn add_contact(contacts: &mut Vec<Conversation>, address: [u8; 16], name: Option<String>) -> (r: bool)
    ensures
        r == forall|i: int| 0 <= i < old(contacts)@.len() ==> (#[trigger] old(contacts)@[i]).peer != address,
        r ==> conversations_view(final(contacts)@) == conversations_view(old(contacts)@).push(
            ConversationModel {
                peer: address,
                peer_hex: hex_of(address@),
                peer_name: name_or_empty(name),
                last_content: Seq::empty(),
                last_title: name_or_empty(name),
                unread: 0,
                last_ts_ms: 0,
            },
        ),
        !r ==> final(contacts)@ == old(contacts)@,
{
    let mut i: usize = 0;
    while i < contacts.len()
        invariant
            i <= contacts@.len(),
            forall|q: int| 0 <= q < i ==> (#[trigger] contacts@[q]).peer != address,
        decreases contacts@.len() - i,
    {
        if same16(&contacts[i].peer, &address) {
            return false;
        }
        i += 1;
    }
    let n = match name {
        Some(n) => n,
        None => String::new(),
    };
    let c = Conversation {
        peer: address,
        peer_hex: hex_string(&address),
        peer_name: n.clone(),
        last_title: n,
        last_content: String::new(),
        unread: 0,
        last_ts_ms: 0,
    };
    let ghost prev = contacts@;
    contacts.push(c);
    assert(conversations_view(contacts@) =~= conversations_view(prev).push(c@));
    true
}

/// The abstract values of a list of nodes.
pub open spec fn nodes_view(ns: Seq<NodeEntry>) -> Seq<NodeModel> {
    ns.map_values(|n: NodeEntry| n@)
}

/// Record a NomadNet node discovered from its announce, unless known.
/// Whether it was new.
pub fn add_node(nodes: &mut Vec<NodeEntry>, address: [u8; 16], name: Option<String>) -> (r: bool)
    ensures
        r == forall|i: int| 0 <= i < old(nodes)@.len() ==> (#[trigger] old(nodes)@[i]).address != address,
        r ==> nodes_view(final(nodes)@) == nodes_view(old(nodes)@).push(
            NodeModel { address, hex: hex_of(address@), name: name_or_empty(name) },
        ),
        !r ==> final(nodes)@ == old(nodes)@,
{
    let mut i: usize = 0;
    while i < nodes.len()
        invariant
            i <= nodes@.len(),
            forall|q: int| 0 <= q < i ==> (#[trigger] nodes@[q]).address != address,
        decreases nodes@.len() - i,
    {
        if same16(&nodes[i].address, &address) {
            return false;
        }
        i += 1;
    }
    let e = NodeEntry {
        address,
        hex: hex_string(&address),
        name: match name {
            Some(n) => n,
            None => String::new(),
        },
    };
    let ghost prev = nodes@;
    nodes.push(e);
    assert(nodes_view(nodes@) =~= nodes_view(prev).push(e@));
    true
}

/// The notice shown while a page is being fetched.
pub fn fetching_notice(path: &str) -> (r: String)
    ensures
        r@ == "Fetching "@ + path@ + "…"@,
{
    let mut v = chars_of("Fetching ");
    append_str(&mut v, path);
    append_str(&mut v, "…");
    string_of(&v)
}

} // verus!
