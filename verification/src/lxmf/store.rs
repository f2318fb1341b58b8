//! A small in-memory store of LXMF messages.
//!
//! Sized for a constrained device: the store is bounded and evicts the
//! oldest message first. Messages are indexed per peer; the index is kept
//! exactly in step with the messages (see [`MessageStore`]'s invariant).

use std::sync::Arc;

use vstd::prelude::*;

use crate::bytes::same16;
use crate::lxmf::message::{LxmfMessage, MessageModel};

verus! {

/// Whether a stored message was sent by us or received from a peer.
#[derive(Debug, Clone, Copy, PartialEq, Eq, Structural)]
pub enum Direction {
    Outbound,
    Inbound,
}

/// The messages of one peer: their positions in the store, oldest first.
struct PeerIndex {
    peer: [u8; 16],
    indexes: Vec<usize>,
}

/// A bounded store of messages, indexed per peer.
pub struct MessageStore {
    messages: Vec<Arc<LxmfMessage>>,
    direction: Vec<Direction>,
    /// One entry per peer that has messages: the peer's message positions.
    /// A `Vec` of entries, with each peer at most once (see `wf`), in place
    /// of a hash map: vstd specifies `HashMap` lookups only for keys whose
    /// hashing it models, which a 16-byte array key is not.
    by_peer: Vec<PeerIndex>,
    max_messages: usize,
}

/// Abstract value of a [`MessageStore`]: its messages and their directions,
/// oldest first, and its capacity.
pub struct StoreView {
    pub messages: Seq<MessageModel>,
    pub directions: Seq<Direction>,
    pub max_messages: usize,
}

/// The other party of message `m` in direction `d`: the sender of an
/// inbound message, the recipient of an outbound one.
pub open spec fn peer_of(m: MessageModel, d: Direction) -> [u8; 16] {
    match d {
        Direction::Inbound => m.source_hash,
        Direction::Outbound => m.destination_hash,
    }
}

/// Positions, below `n`, of the messages exchanged with `p`, in order.
pub open spec fn peer_positions(ms: Seq<MessageModel>, ds: Seq<Direction>, p: [u8; 16], n: nat) -> Seq<
    usize,
>
    decreases n,
{
    if n == 0 {
        Seq::empty()
    } else {
        let rest = peer_positions(ms, ds, p, (n - 1) as nat);
        if peer_of(ms[n - 1], ds[n - 1]) == p {
            rest.push((n - 1) as usize)
        } else {
            rest
        }
    }
}

/// The conversation with `p` among the first `n` messages: the messages
/// exchanged with `p`, oldest first.
pub open spec fn conversation(ms: Seq<MessageModel>, ds: Seq<Direction>, p: [u8; 16], n: nat) -> Seq<
    MessageModel,
>
    decreases n,
{
    if n == 0 {
        Seq::empty()
    } else {
        let rest = conversation(ms, ds, p, (n - 1) as nat);
        if peer_of(ms[n - 1], ds[n - 1]) == p {
            rest.push(ms[n - 1])
        } else {
            rest
        }
    }
}

/// The conversation with `p` in the store `s`.
pub open spec fn conversation_of(s: StoreView, p: [u8; 16]) -> Seq<MessageModel> {
    conversation(s.messages, s.directions, p, s.messages.len())
}

/// Index positions with position 0 dropped and the rest moved down by one.
pub open spec fn shifted(idx: Seq<usize>) -> Seq<usize>
    decreases idx.len(),
{
    if idx.len() == 0 {
        Seq::empty()
    } else {
        let rest = shifted(idx.drop_last());
        if idx.last() == 0 {
            rest
        } else {
            rest.push((idx.last() - 1) as usize)
        }
    }
}

/// The stored messages, taken by their abstract values.
pub open spec fn models(ms: Seq<Arc<LxmfMessage>>) -> Seq<MessageModel> {
    ms.map_values(|a: Arc<LxmfMessage>| (*a)@)
}

/// The largest number of messages a store with capacity `max` holds: its
/// capacity, and never less than the one message just pushed.
pub open spec fn bound(max: usize) -> nat {
    if max == 0 {
        1
    } else {
        max as nat
    }
}

/// The store `s` once room is made for one more message: at capacity, the
/// oldest message is evicted.
pub open spec fn with_room(s: StoreView) -> StoreView {
    if s.messages.len() >= s.max_messages && s.messages.len() > 0 {
        StoreView {
            messages: s.messages.drop_first(),
            directions: s.directions.drop_first(),
            ..s
        }
    } else {
        s
    }
}

/// The store `s` after storing message `m` in direction `d`.
pub open spec fn stored(s: StoreView, m: MessageModel, d: Direction) -> StoreView {
    let k = with_room(s);
    StoreView { messages: k.messages.push(m), directions: k.directions.push(d), ..s }
}

impl View for MessageStore {
    type V = StoreView;

    closed spec fn view(&self) -> StoreView {
        StoreView {
            messages: models(self.messages@),
            directions: self.direction@,
            max_messages: self.max_messages,
        }
    }
}

/// Positions of the conversation with `p` map to its messages.
proof fn lemma_positions_conversation(ms: Seq<MessageModel>, ds: Seq<Direction>, p: [u8; 16], n: nat)
    requires
        n <= ms.len(),
        n <= ds.len(),
        n <= usize::MAX,
    ensures
        peer_positions(ms, ds, p, n).map_values(|i: usize| ms[i as int]) == conversation(
            ms,
            ds,
            p,
            n,
        ),
        forall|k: int|
            0 <= k < peer_positions(ms, ds, p, n).len() ==> #[trigger] peer_positions(ms, ds, p, n)[k]
                < n && peer_of(ms[peer_positions(ms, ds, p, n)[k] as int], ds[peer_positions(ms, ds, p, n)[k] as int]) == p,
        forall|k: int, l: int|
            0 <= k < l < peer_positions(ms, ds, p, n).len() ==> #[trigger] peer_positions(ms, ds, p, n)[k]
                < #[trigger] peer_positions(ms, ds, p, n)[l],
    decreases n,
{
    if n > 0 {
        lemma_positions_conversation(ms, ds, p, (n - 1) as nat);
        let prev = peer_positions(ms, ds, p, (n - 1) as nat);
        let cur = peer_positions(ms, ds, p, n);
        assert(cur.map_values(|i: usize| ms[i as int]) =~= conversation(ms, ds, p, n)) by {
            if peer_of(ms[n - 1], ds[n - 1]) == p {
                assert(cur =~= prev.push((n - 1) as usize));
            }
        }
    }
}

/// Pushing a message adds its position to its own peer's positions only.
proof fn lemma_positions_push(
    ms: Seq<MessageModel>,
    ds: Seq<Direction>,
    m: MessageModel,
    d: Direction,
    p: [u8; 16],
)
    requires
        ms.len() == ds.len(),
        ms.len() < usize::MAX,
    ensures
        peer_positions(ms.push(m), ds.push(d), p, ms.len() + 1) == if peer_of(m, d) == p {
            peer_positions(ms, ds, p, ms.len()).push(ms.len() as usize)
        } else {
            peer_positions(ms, ds, p, ms.len())
        },
        conversation(ms.push(m), ds.push(d), p, ms.len() + 1) == if peer_of(m, d) == p {
            conversation(ms, ds, p, ms.len()).push(m)
        } else {
            conversation(ms, ds, p, ms.len())
        },
{
    lemma_positions_prefix(ms, ds, m, d, p, ms.len());
}

/// Appending a message leaves the positions among earlier messages alone.
proof fn lemma_positions_prefix(
    ms: Seq<MessageModel>,
    ds: Seq<Direction>,
    m: MessageModel,
    d: Direction,
    p: [u8; 16],
    n: nat,
)
    requires
        n <= ms.len(),
        ms.len() == ds.len(),
    ensures
        peer_positions(ms.push(m), ds.push(d), p, n) == peer_positions(ms, ds, p, n),
        conversation(ms.push(m), ds.push(d), p, n) == conversation(ms, ds, p, n),
    decreases n,
{
    if n > 0 {
        lemma_positions_prefix(ms, ds, m, d, p, (n - 1) as nat);
        assert(ms.push(m)[n - 1] == ms[n - 1]);
        assert(ds.push(d)[n - 1] == ds[n - 1]);
    }
}

/// Dropping the first message shifts every peer's positions down by one.
proof fn lemma_positions_drop_first(ms: Seq<MessageModel>, ds: Seq<Direction>, p: [u8; 16], n: nat)
    requires
        1 <= n <= ms.len(),
        ms.len() == ds.len(),
        ms.len() <= usize::MAX,
    ensures
        peer_positions(ms.drop_first(), ds.drop_first(), p, (n - 1) as nat) == shifted(
            peer_positions(ms, ds, p, n),
        ),
        conversation(ms.drop_first(), ds.drop_first(), p, (n - 1) as nat) == conversation(
            ms,
            ds,
            p,
            n,
        ).skip(if peer_of(ms[0], ds[0]) == p {
            1int
        } else {
            0int
        }),
    decreases n,
{
    let cur = peer_positions(ms, ds, p, n);
    if n == 1 {
        let first = peer_positions(ms, ds, p, 0);
        assert(first =~= Seq::<usize>::empty());
        if peer_of(ms[0], ds[0]) == p {
            assert(cur =~= seq![0usize]);
            assert(cur.drop_last() =~= Seq::<usize>::empty());
            assert(shifted(cur.drop_last()) =~= Seq::<usize>::empty());
        } else {
            assert(cur =~= Seq::<usize>::empty());
        }
        let c1 = conversation(ms, ds, p, 1);
        assert(conversation(ms, ds, p, 0) =~= Seq::<MessageModel>::empty());
        if peer_of(ms[0], ds[0]) == p {
            assert(c1 =~= seq![ms[0]]);
        } else {
            assert(c1 =~= Seq::<MessageModel>::empty());
        }
        assert(conversation(ms.drop_first(), ds.drop_first(), p, 0) =~= Seq::<MessageModel>::empty());
        assert(c1.skip(if peer_of(ms[0], ds[0]) == p { 1int } else { 0int }) =~= Seq::<
            MessageModel,
        >::empty());
    } else {
        lemma_positions_drop_first(ms, ds, p, (n - 1) as nat);
        let prev = peer_positions(ms, ds, p, (n - 1) as nat);
        assert(ms.drop_first()[n - 2] == ms[n - 1]);
        assert(ds.drop_first()[n - 2] == ds[n - 1]);
        if peer_of(ms[n - 1], ds[n - 1]) == p {
            assert(cur =~= prev.push((n - 1) as usize));
            assert(cur.drop_last() =~= prev);
        } else {
            assert(cur =~= prev);
        }
        let skip = if peer_of(ms[0], ds[0]) == p {
            1int
        } else {
            0int
        };
        let cprev = conversation(ms, ds, p, (n - 1) as nat);
        lemma_conversation_len(ms, ds, p, (n - 1) as nat);
        if peer_of(ms[0], ds[0]) == p {
            lemma_conversation_first(ms, ds, p, (n - 1) as nat);
        }
        if peer_of(ms[n - 1], ds[n - 1]) == p {
            assert(cprev.push(ms[n - 1]).skip(skip) =~= cprev.skip(skip).push(ms[n - 1]));
        }
    }
}

/// A conversation among `n` messages has at most `n` messages.
proof fn lemma_conversation_len(ms: Seq<MessageModel>, ds: Seq<Direction>, p: [u8; 16], n: nat)
    ensures
        conversation(ms, ds, p, n).len() <= n,
    decreases n,
{
    if n > 0 {
        lemma_conversation_len(ms, ds, p, (n - 1) as nat);
    }
}

/// When the first message is with `p`, every conversation with `p` that
/// reaches it starts with it.
proof fn lemma_conversation_first(ms: Seq<MessageModel>, ds: Seq<Direction>, p: [u8; 16], n: nat)
    requires
        n >= 1,
        peer_of(ms[0], ds[0]) == p,
    ensures
        conversation(ms, ds, p, n).len() >= 1,
    decreases n,
{
    if n > 1 {
        lemma_conversation_first(ms, ds, p, (n - 1) as nat);
    }
}

/// Whether `entries` has an entry for `p`.
spec fn has_entry(entries: Seq<PeerIndex>, p: [u8; 16]) -> bool {
    exists|k: int| 0 <= k < entries.len() && (#[trigger] entries[k]).peer == p
}

impl PeerIndex {
    /// The positions of this entry.
    spec fn positions(&self) -> Seq<usize> {
        self.indexes@
    }
}

/// A message with `p` lies among `p`'s positions.
proof fn lemma_position_found(ms: Seq<MessageModel>, ds: Seq<Direction>, p: [u8; 16], n: nat, i: int)
    requires
        0 <= i < n,
        peer_of(ms[i], ds[i]) == p,
    ensures
        peer_positions(ms, ds, p, n).contains(i as usize),
    decreases n,
{
    if i < n - 1 {
        lemma_position_found(ms, ds, p, (n - 1) as nat, i);
        let prev = peer_positions(ms, ds, p, (n - 1) as nat);
        let k = choose|k: int| 0 <= k < prev.len() && prev[k] == i as usize;
        if peer_of(ms[n - 1], ds[n - 1]) == p {
            assert(peer_positions(ms, ds, p, n)[k] == i as usize);
        }
    } else {
        let cur = peer_positions(ms, ds, p, n);
        assert(cur[cur.len() - 1] == i as usize);
    }
}

/// A position above zero survives [`shifted`], one lower.
proof fn lemma_shifted_keeps(idx: Seq<usize>, x: usize)
    requires
        idx.contains(x),
        x > 0,
    ensures
        shifted(idx).contains((x - 1) as usize),
    decreases idx.len(),
{
    if idx.last() == x {
        assert(shifted(idx)[shifted(idx).len() - 1] == (x - 1) as usize);
    } else {
        let k = choose|k: int| 0 <= k < idx.len() && idx[k] == x;
        assert(idx.drop_last()[k] == x);
        lemma_shifted_keeps(idx.drop_last(), x);
        let r = shifted(idx.drop_last());
        let j = choose|j: int| 0 <= j < r.len() && r[j] == (x - 1) as usize;
        if idx.last() != 0 {
            assert(shifted(idx)[j] == (x - 1) as usize);
        }
    }
}

/// `idx` without position 0 and moved down, computed.
fn shift_positions(idx: &Vec<usize>) -> (r: Vec<usize>)
    ensures
        r@ == shifted(idx@),
{
    let mut r: Vec<usize> = Vec::new();
    let mut j: usize = 0;
    while j < idx.len()
        invariant
            j <= idx.len(),
            r@ == shifted(idx@.take(j as int)),
        decreases idx.len() - j,
    {
        assert(idx@.take(j + 1).drop_last() =~= idx@.take(j as int));
        if idx[j] != 0 {
            r.push(idx[j] - 1);
        }
        j += 1;
    }
    assert(idx@.take(idx.len() as int) =~= idx@);
    r
}

/// Shares a stored message (`Arc::clone`): the copy points at the same
/// message.
#[verifier::external_body]
fn share(a: &Arc<LxmfMessage>) -> (r: Arc<LxmfMessage>)
    ensures
        r == *a,
{
    Arc::clone(a)
}

impl MessageStore {
    /// The per-peer index lists exactly the positions of each peer's
    /// messages; every peer with messages has one entry, and no other entry
    /// exists.
    pub closed spec fn wf(&self) -> bool {
        &&& self.messages@.len() == self.direction@.len()
        &&& self.messages@.len() <= bound(self.max_messages)
        &&& forall|k: int|
            0 <= k < self.by_peer@.len() ==> (#[trigger] self.by_peer@[k]).positions() == peer_positions(
                models(self.messages@),
                self.direction@,
                self.by_peer@[k].peer,
                self.messages@.len(),
            ) && self.by_peer@[k].positions().len() > 0
        &&& forall|k: int, l: int|
            0 <= k < l < self.by_peer@.len() ==> (#[trigger] self.by_peer@[k]).peer
                != (#[trigger] self.by_peer@[l]).peer
        &&& forall|i: int|
            0 <= i < self.messages@.len() ==> has_entry(
                self.by_peer@,
                #[trigger] peer_of(models(self.messages@)[i], self.direction@[i]),
            )
    }

    /// Create an empty store holding at most `max_messages` messages.
    pub fn new(max_messages: usize) -> (r: Self)
        ensures
            r.wf(),
            r@.messages.len() == 0,
            r@.directions.len() == 0,
            r@.max_messages == max_messages,
    {
        MessageStore {
            messages: Vec::new(),
            direction: Vec::new(),
            by_peer: Vec::new(),
            max_messages,
        }
    }

    /// Drop the oldest message; the per-peer index follows.
    fn evict_oldest(&mut self)
        requires
            old(self).wf(),
        ensures
            final(self).wf(),
            final(self)@ == if old(self)@.messages.len() == 0 {
                old(self)@
            } else {
                StoreView {
                    messages: old(self)@.messages.drop_first(),
                    directions: old(self)@.directions.drop_first(),
                    ..old(self)@
                }
            },
    {
        if self.messages.len() == 0 {
            return;
        }
        let ghost old_ms = models(self.messages@);
        let ghost old_ds = self.direction@;
        let ghost n = self.messages@.len();
        let ghost old_entries = self.by_peer@;
        self.messages.remove(0);
        self.direction.remove(0);
        let ghost new_ms = models(self.messages@);
        assert(new_ms =~= old_ms.drop_first());
        assert(self.direction@ =~= old_ds.drop_first());
        let mut new_index: Vec<PeerIndex> = Vec::new();
        let mut k: usize = 0;
        while k < self.by_peer.len()
            invariant
                k <= self.by_peer@.len(),
                self.by_peer@ == old_entries,
                old_ms.len() == n,
                old_ds.len() == n,
                1 <= n <= usize::MAX,
                new_ms == old_ms.drop_first(),
                self.direction@ == old_ds.drop_first(),
                forall|q: int|
                    0 <= q < old_entries.len() ==> (#[trigger] old_entries[q]).positions() == peer_positions(
                        old_ms,
                        old_ds,
                        old_entries[q].peer,
                        n,
                    ),
                forall|q: int, l: int|
                    0 <= q < l < old_entries.len() ==> (#[trigger] old_entries[q]).peer
                        != (#[trigger] old_entries[l]).peer,
                forall|j: int|
                    0 <= j < new_index@.len() ==> (#[trigger] new_index@[j]).positions() == peer_positions(
                        new_ms,
                        self.direction@,
                        new_index@[j].peer,
                        (n - 1) as nat,
                    ) && new_index@[j].positions().len() > 0,
                forall|j: int|
                    0 <= j < new_index@.len() ==> exists|q: int|
                        0 <= q < k && (#[trigger] old_entries[q]).peer == (
                        #[trigger] new_index@[j]).peer,
                forall|j: int, l: int|
                    0 <= j < l < new_index@.len() ==> (#[trigger] new_index@[j]).peer
                        != (#[trigger] new_index@[l]).peer,
                forall|q: int|
                    0 <= q < k && shifted((#[trigger] old_entries[q]).positions()).len() > 0
                        ==> has_entry(new_index@, old_entries[q].peer),
            decreases self.by_peer@.len() - k,
        {
            let sh = shift_positions(&self.by_peer[k].indexes);
            let p = self.by_peer[k].peer;
            proof {
                lemma_positions_drop_first(old_ms, old_ds, p, n);
            }
            if sh.len() > 0 {
                let ghost before = new_index@;
                new_index.push(PeerIndex { peer: p, indexes: sh });
                proof {
                    assert forall|j: int|
                        0 <= j < new_index@.len() implies exists|q: int|
                            0 <= q < k + 1 && (#[trigger] old_entries[q]).peer == (
                            #[trigger] new_index@[j]).peer by {
                        if j < before.len() {
                            assert(new_index@[j] == before[j]);
                        } else {
                            assert(old_entries[k as int].peer == new_index@[j].peer);
                        }
                    }
                    assert forall|j: int, l: int|
                        0 <= j < l < new_index@.len() implies (#[trigger] new_index@[j]).peer
                            != (#[trigger] new_index@[l]).peer by {
                        if l == before.len() {
                            assert(new_index@[j] == before[j]);
                            let q = choose|q: int|
                                0 <= q < k && (#[trigger] old_entries[q]).peer == before[j].peer;
                            assert(old_entries[q].peer != old_entries[k as int].peer);
                        } else {
                            assert(new_index@[j] == before[j]);
                            assert(new_index@[l] == before[l]);
                        }
                    }
                    assert forall|q: int|
                        0 <= q < k + 1 && shifted((#[trigger] old_entries[q]).positions()).len() > 0
                            implies has_entry(new_index@, old_entries[q].peer) by {
                        if q < k {
                            let w = choose|w: int|
                                0 <= w < before.len() && (#[trigger] before[w]).peer
                                    == old_entries[q].peer;
                            assert(new_index@[w] == before[w]);
                        } else {
                            assert(new_index@[before.len() as int].peer == p);
                        }
                    }
                }
            }
            k += 1;
        }
        self.by_peer = new_index;
        proof {
            assert forall|i: int| 0 <= i < self.messages@.len() implies has_entry(
                self.by_peer@,
                #[trigger] peer_of(models(self.messages@)[i], self.direction@[i]),
            ) by {
                let p = peer_of(new_ms[i], self.direction@[i]);
                assert(new_ms[i] == old_ms[i + 1]);
                assert(self.direction@[i] == old_ds[i + 1]);
                assert(peer_of(models(self.messages@)[i], self.direction@[i]) == p);
                assert(has_entry(old_entries, peer_of(old_ms[i + 1], old_ds[i + 1])));
                let q = choose|q: int| 0 <= q < old_entries.len() && (#[trigger] old_entries[q]).peer == p;
                lemma_position_found(old_ms, old_ds, p, n, i + 1);
                lemma_shifted_keeps(old_entries[q].positions(), (i + 1) as usize);
            }
        }
    }

    /// Insert a message, evicting the oldest message if at capacity, and
    /// return the stored message.
    pub fn push(&mut self, message: LxmfMessage, direction: Direction) -> (r: Arc<LxmfMessage>)
        requires
            old(self).wf(),
        ensures
            final(self).wf(),
            final(self)@ == stored(old(self)@, message@, direction),
            final(self)@.messages.len() == final(self)@.directions.len(),
            final(self)@.messages.len() <= bound(final(self)@.max_messages),
            (*r)@ == message@,
    {
        if self.messages.len() >= self.max_messages {
            self.evict_oldest();
        }
        let peer = match direction {
            Direction::Inbound => message.source_hash,
            Direction::Outbound => message.destination_hash,
        };
        let index = self.messages.len();
        let ghost ms = models(self.messages@);
        let ghost ds = self.direction@;
        let ghost entries = self.by_peer@;
        let ghost mv = message@;
        assert(index < usize::MAX);
        match self.find_peer(&peer) {
            Some(k) => {
                let mut e = self.by_peer.remove(k);
                e.indexes.push(index);
                let ghost e2 = e;
                self.by_peer.insert(k, e);
                assert(self.by_peer@ =~= entries.update(k as int, e2));
                assert(self.by_peer@[k as int].peer == peer);
            },
            None => {
                proof {
                    self.lemma_no_entry(peer);
                }
                let mut v: Vec<usize> = Vec::new();
                v.push(index);
                self.by_peer.push(PeerIndex { peer, indexes: v });
                assert(self.by_peer@[entries.len() as int].peer == peer);
            },
        }
        assert(has_entry(self.by_peer@, peer));
        assert(self.by_peer@.len() >= entries.len());
        assert(forall|q: int|
            0 <= q < entries.len() ==> (#[trigger] self.by_peer@[q]).peer == entries[q].peer);
        self.messages.push(Arc::new(message));
        self.direction.push(direction);
        proof {
            assert(models(self.messages@) =~= ms.push(mv));
            assert forall|q: int| 0 <= q < self.by_peer@.len() implies (#[trigger] self.by_peer@[q]).positions()
                == peer_positions(
                models(self.messages@),
                self.direction@,
                self.by_peer@[q].peer,
                self.messages@.len(),
            ) && self.by_peer@[q].positions().len() > 0 by {
                lemma_positions_push(ms, ds, mv, direction, self.by_peer@[q].peer);
            }
            assert forall|i: int| 0 <= i < self.messages@.len() implies has_entry(
                self.by_peer@,
                #[trigger] peer_of(models(self.messages@)[i], self.direction@[i]),
            ) by {
                if i < index {
                    assert(models(self.messages@)[i] == ms[i]);
                    assert(self.direction@[i] == ds[i]);
                    assert(has_entry(entries, peer_of(ms[i], ds[i])));
                    let q = choose|q: int| 0 <= q < entries.len() && (#[trigger] entries[q]).peer == peer_of(ms[i], ds[i]);
                    assert(self.by_peer@[q].peer == entries[q].peer);
                } else {
                    assert(peer_of(models(self.messages@)[i], self.direction@[i]) == peer);
                }
            }
        }
        share(&self.messages[index])
    }

    /// The entry of peer `p`, if it has one.
    fn find_peer(&self, p: &[u8; 16]) -> (r: Option<usize>)
        ensures
            match r {
                Some(k) => k < self.by_peer@.len() && self.by_peer@[k as int].peer == *p,
                None => !has_entry(self.by_peer@, *p),
            },
    {
        let mut k: usize = 0;
        while k < self.by_peer.len()
            invariant
                k <= self.by_peer@.len(),
                forall|j: int| 0 <= j < k ==> (#[trigger] self.by_peer@[j]).peer != *p,
            decreases self.by_peer.len() - k,
        {
            if same16(&self.by_peer[k].peer, p) {
                return Some(k);
            }
            k += 1;
        }
        None
    }

    /// Without an entry for `p`, no message is exchanged with `p`.
    proof fn lemma_no_entry(&self, p: [u8; 16])
        requires
            self.wf(),
            !has_entry(self.by_peer@, p),
        ensures
            peer_positions(models(self.messages@), self.direction@, p, self.messages@.len()).len()
                == 0,
    {
        let ms = models(self.messages@);
        let n = self.messages@.len();
        let pos = peer_positions(ms, self.direction@, p, n);
        lemma_positions_conversation(ms, self.direction@, p, n);
        if pos.len() > 0 {
            let i = pos[0] as int;
            assert(peer_of(ms[i], self.direction@[i]) == p);
            assert(has_entry(self.by_peer@, peer_of(ms[i], self.direction@[i])));
        }
    }

    /// All stored messages, oldest first.
    pub fn all(&self) -> (r: &[Arc<LxmfMessage>])
        ensures
            models(r@) == self@.messages,
    {
        self.messages.as_slice()
    }

    /// The direction of the message at `index`.
    pub fn direction_of(&self, index: usize) -> (r: Option<Direction>)
        ensures
            r == if index < self@.directions.len() {
                Some(self@.directions[index as int])
            } else {
                None::<Direction>
            },
    {
        if index < self.direction.len() {
            Some(self.direction[index])
        } else {
            None
        }
    }

    /// Total number of stored messages.
    pub fn len(&self) -> (r: usize)
        ensures
            r == self@.messages.len(),
    {
        self.messages.len()
    }

    /// True if the store is empty.
    pub fn is_empty(&self) -> (r: bool)
        ensures
            r == (self@.messages.len() == 0),
    {
        self.messages.len() == 0
    }

    /// All messages exchanged with `peer`, oldest first.
    pub fn for_peer(&self, peer: &[u8; 16]) -> (r: Vec<Arc<LxmfMessage>>)
        requires
            self.wf(),
        ensures
            models(r@) == conversation_of(self@, *peer),
    {
        let ghost ms = models(self.messages@);
        let ghost n = self.messages@.len();
        proof {
            lemma_positions_conversation(ms, self.direction@, *peer, n);
        }
        match self.find_peer(peer) {
            None => {
                proof {
                    self.lemma_no_entry(*peer);
                    assert(peer_positions(ms, self.direction@, *peer, n).map_values(
                        |i: usize| ms[i as int],
                    ) =~= Seq::<MessageModel>::empty());
                }
                Vec::new()
            },
            Some(k) => {
                let idx = &self.by_peer[k].indexes;
                let ghost pos = peer_positions(ms, self.direction@, *peer, n);
                assert(idx@ == pos);
                let mut out: Vec<Arc<LxmfMessage>> = Vec::new();
                let mut j: usize = 0;
                while j < idx.len()
                    invariant
                        j <= idx@.len(),
                        idx@ == pos,
                        ms == models(self.messages@),
                        n == self.messages@.len(),
                        forall|q: int| 0 <= q < pos.len() ==> #[trigger] pos[q] < n,
                        models(out@) == pos.take(j as int).map_values(|i: usize| ms[i as int]),
                    decreases idx.len() - j,
                {
                    let i = idx[j];
                    assert(i < n);
                    let ghost prev = out@;
                    let a = share(&self.messages[i]);
                    assert((*a)@ == ms[i as int]);
                    out.push(a);
                    assert(models(out@) =~= models(prev).push(ms[i as int]));
                    assert(pos.take(j + 1) =~= pos.take(j as int).push(i));
                    assert(models(out@) =~= pos.take(j + 1).map_values(|i: usize| ms[i as int]));
                    j += 1;
                }
                assert(pos.take(pos.len() as int) =~= pos);
                out
            },
        }
    }
}


/// A store never holds more than its capacity (or the one message just
/// pushed, when the capacity is zero).
pub proof fn lemma_store_bounded(st: &MessageStore)
    requires
        st.wf(),
    ensures
        st@.messages.len() <= bound(st@.max_messages),
        st@.messages.len() == st@.directions.len(),
{
}

/// Storing a message appends it, after evicting the oldest message when
/// the store is at capacity; the store then holds one more message, up to
/// its capacity, and the new message is the last one, in the direction it
/// was stored with.
pub proof fn lemma_stored_appends(s: StoreView, m: MessageModel, d: Direction)
    requires
        s.messages.len() == s.directions.len(),
        s.messages.len() <= bound(s.max_messages),
    ensures
        stored(s, m, d).messages == (if s.messages.len() >= s.max_messages && s.messages.len() > 0 {
            s.messages.drop_first()
        } else {
            s.messages
        }).push(m),
        stored(s, m, d).directions.len() == stored(s, m, d).messages.len(),
        stored(s, m, d).directions.last() == d,
        s.max_messages >= 1 ==> stored(s, m, d).messages.len() == if s.messages.len() + 1
            <= s.max_messages {
            s.messages.len() + 1
        } else {
            s.max_messages as nat
        },
{
}

/// Storing a message groups it with its peer: the conversation with `p`
/// afterwards is the conversation before, less the evicted oldest message
/// when it was with `p`, followed by the new message when it is with `p`.
pub proof fn lemma_conversation_after_push(s: StoreView, m: MessageModel, d: Direction, p: [u8; 16])
    requires
        s.messages.len() == s.directions.len(),
        s.messages.len() < usize::MAX,
    ensures
        conversation_of(stored(s, m, d), p) == ({
            let before = if s.messages.len() >= s.max_messages && s.messages.len() > 0 {
                conversation_of(s, p).skip(
                    if peer_of(s.messages[0], s.directions[0]) == p {
                        1int
                    } else {
                        0int
                    },
                )
            } else {
                conversation_of(s, p)
            };
            if peer_of(m, d) == p {
                before.push(m)
            } else {
                before
            }
        }),
{
    let k = with_room(s);
    if s.messages.len() >= s.max_messages && s.messages.len() > 0 {
        lemma_positions_drop_first(s.messages, s.directions, p, s.messages.len());
    }
    lemma_positions_push(k.messages, k.directions, m, d, p);
}

} // verus!
