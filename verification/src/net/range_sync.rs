//! Catching up over a range of slots, batch by batch.
use crate::keyed::{distinct_keys, entries_map, lemma_entry_in_map, KeyMap};
use crate::primitives::PeerId;
use std::ops::Range;
use vstd::prelude::*;

verus! {

/// Most blocks that one request may ask a lean peer for.
pub const MAX_REQUEST_BLOCKS: u64 = 1024;

/// Most slots that one catch-up session takes on.
pub const MAX_SYNC_RANGE: u64 = 65536;

/// A catch-up session as its contracts speak of it.
#[verifier::ext_equal]
pub struct RangeSyncView {
    /// First slot that is still to be requested.
    pub start: u64,
    /// First slot that is not to be requested any more.
    pub end: u64,
    /// Latest advertised head slot of each peer of the session.
    pub heads: Map<PeerId, u64>,
    /// Whether a batch is under way.
    pub in_flight: bool,
    /// Most slots that one batch covers.
    pub max_batch: u64,
}

/// The smaller of two numbers.
pub open spec fn least(a: int, b: int) -> int {
    if a <= b {
        a
    } else {
        b
    }
}

/// The larger of two numbers.
pub open spec fn most(a: int, b: int) -> int {
    if a >= b {
        a
    } else {
        b
    }
}

/// `heads` without the peers whose head lies before `start`.
pub open spec fn useful_heads(heads: Map<PeerId, u64>, start: u64) -> Map<PeerId, u64> {
    heads.restrict(Set::new(|p: PeerId| heads.contains_key(p) && heads[p] >= start))
}

impl RangeSyncView {
    /// With a peer's advertised head taken in.
    pub open spec fn merged(self, peer: PeerId, head: u64, end: u64) -> RangeSyncView {
        RangeSyncView {
            end: most(self.end as int, end as int) as u64,
            heads: useful_heads(self.heads.insert(peer, head), self.start),
            ..self
        }
    }

    /// With the batch that ends with `end_slot` done.
    pub open spec fn completed(self, end_slot: u64) -> RangeSyncView {
        let start = most(self.start as int, least(end_slot + 1, u64::MAX as int)) as u64;
        RangeSyncView {
            start,
            heads: useful_heads(self.heads, start),
            in_flight: false,
            ..self
        }
    }

    /// With a peer dropped that failed to serve a batch.
    pub open spec fn without(self, peer: PeerId) -> RangeSyncView {
        RangeSyncView {
            heads: useful_heads(self.heads.remove(peer), self.start),
            in_flight: false,
            ..self
        }
    }

    /// Whether `peer` is a peer to ask: none of the others is further ahead, and it has the first
    /// slot that is to be requested.
    pub open spec fn best_peer(self, peer: PeerId) -> bool {
        &&& self.heads.contains_key(peer)
        &&& self.heads[peer] >= self.start
        &&& forall|p: PeerId| #[trigger]
            self.heads.contains_key(p) ==> self.heads[p] <= self.heads[peer]
    }

    /// Where a batch from a peer with the given head ends.
    pub open spec fn batch_end(self, head: u64) -> int {
        least(
            least(least(self.start + self.max_batch, u64::MAX as int), self.end as int),
            least(head + 1, u64::MAX as int),
        )
    }

    /// Whether `start..end` from `peer` is a batch to request now.
    pub open spec fn is_next_batch(self, peer: PeerId, start: u64, end: u64) -> bool {
        &&& !self.in_flight
        &&& self.start < self.end
        &&& self.best_peer(peer)
        &&& start == self.start
        &&& end == self.batch_end(self.heads[peer])
        &&& start < end
    }

    /// Whether the session is over: nothing left to request, or nobody left to ask.
    pub open spec fn over(self) -> bool {
        self.start >= self.end || self.heads.dom() == Set::<PeerId>::empty()
    }
}

/// A catch-up session.
pub struct RangeSyncState {
    /// Remaining slots to request.
    pub current_range: Range<u64>,
    /// Latest advertised head slot for each peer.
    pub peer_set: KeyMap<PeerId, u64>,
    /// Whether a batch is under way.
    pub in_flight: bool,
    /// Most slots that a single request may ask for.
    pub max_batch: u64,
}

impl View for RangeSyncState {
    type V = RangeSyncView;

    open spec fn view(&self) -> RangeSyncView {
        RangeSyncView {
            start: self.current_range.start,
            end: self.current_range.end,
            heads: self.peer_set@,
            in_flight: self.in_flight,
            max_batch: self.max_batch,
        }
    }
}

impl RangeSyncState {
    /// A session with one peer, in batches as large as lean peers serve.
    pub fn new(current_range: Range<u64>, peer: PeerId, peer_head: u64) -> (res: RangeSyncState)
        ensures
            res@.start == current_range.start,
            res@.end == current_range.end,
            res@.heads == Map::<PeerId, u64>::empty().insert(peer, peer_head),
            !res@.in_flight,
            res@.max_batch == MAX_REQUEST_BLOCKS,
    {
        RangeSyncState::with_max_batch(current_range, peer, peer_head, MAX_REQUEST_BLOCKS)
    }

    /// A session with one peer, in batches of at most `max_batch` slots.
    pub fn with_max_batch(
        current_range: Range<u64>,
        peer: PeerId,
        peer_head: u64,
        max_batch: u64,
    ) -> (res: RangeSyncState)
        ensures
            res@.start == current_range.start,
            res@.end == current_range.end,
            res@.heads == Map::<PeerId, u64>::empty().insert(peer, peer_head),
            !res@.in_flight,
            res@.max_batch == max_batch,
    {
        let mut peer_set: KeyMap<PeerId, u64> = KeyMap::new();
        peer_set.insert(peer, peer_head);
        RangeSyncState { current_range, peer_set, in_flight: false, max_batch }
    }

    /// Takes in a peer's advertised head, and extends the range to `end_exclusive`.
    pub fn merge_peer(&mut self, peer: PeerId, peer_head: u64, end_exclusive: u64)
        ensures
            final(self)@ == old(self)@.merged(peer, peer_head, end_exclusive),
    {
        self.peer_set.insert(peer, peer_head);
        if end_exclusive > self.current_range.end {
            self.current_range.end = end_exclusive;
        }
        self.drop_stale_peers();
    }

    /// The next batch to request, and a peer to ask for it: one that is furthest ahead.
    pub fn next_batch(&self) -> (res: Option<(PeerId, Range<u64>)>)
        ensures
            match res {
                Some((peer, batch)) => self@.is_next_batch(peer, batch.start, batch.end),
                None => forall|p: PeerId, start: u64, end: u64|
                    !self@.is_next_batch(p, start, end),
            },
    {
        let start: u64 = self.current_range.start;
        if self.in_flight || start >= self.current_range.end {
            return None;
        }
        let total: usize = self.peer_set.len();
        let mut best: Option<(PeerId, u64)> = None;
        let mut i: usize = 0;
        while i < total
            invariant
                i <= total,
                total == self.peer_set.order().len(),
                start == self.current_range.start,
                match best {
                    Some((peer, head)) => self.peer_set@.contains_pair(peer, head) && head >= start
                        && forall|j: int|
                        0 <= j < i ==> (#[trigger] self.peer_set.order()[j]).1 <= head,
                    None => forall|j: int|
                        0 <= j < i ==> (#[trigger] self.peer_set.order()[j]).1 < start,
                },
            decreases total - i,
        {
            let head: u64 = *self.peer_set.value_at(i);
            let peer = self.peer_set.key_at(i);
            let better = head >= start && match best {
                Some((_, h)) => head >= h,
                None => true,
            };
            if better {
                best = Some((peer, head));
            }
            i = i + 1;
        }
        proof {
            let order = self.peer_set.order();
            assert forall|p: PeerId| #[trigger] self.peer_set@.contains_key(p) implies exists|
                j: int,
            |
                0 <= j < order.len() && #[trigger] order[j] == (p, self.peer_set@[p]) by {
                lemma_key_has_place(order, p);
            }
        }
        match best {
            None => None,
            Some((peer, peer_head)) => {
                let peer_end: u64 = peer_head.saturating_add(1);
                let mut batch_end: u64 = start.saturating_add(self.max_batch);
                if self.current_range.end < batch_end {
                    batch_end = self.current_range.end;
                }
                if peer_end < batch_end {
                    batch_end = peer_end;
                }
                assert(self@.best_peer(peer));
                assert(batch_end == self@.batch_end(peer_head));
                if batch_end > start {
                    Some((peer, start..batch_end))
                } else {
                    assert forall|p: PeerId, s: u64, e: u64| !self@.is_next_batch(p, s, e) by {
                        if self@.best_peer(p) {
                            assert(self@.heads[p] == peer_head);
                        }
                    }
                    None
                }
            },
        }
    }

    /// Marks the batch that ends with `end_slot` as done.
    pub fn complete_batch(&mut self, end_slot: u64)
        ensures
            final(self)@ == old(self)@.completed(end_slot),
    {
        self.in_flight = false;
        let next: u64 = end_slot.saturating_add(1);
        if next > self.current_range.start {
            self.current_range.start = next;
        }
        self.drop_stale_peers();
    }

    /// Drops a peer that failed to serve a batch.
    pub fn fail_peer(&mut self, peer: &PeerId)
        ensures
            final(self)@ == old(self)@.without(*peer),
    {
        self.in_flight = false;
        self.peer_set.remove(peer);
        self.drop_stale_peers();
    }

    /// Whether the session is over.
    pub fn is_over(&self) -> (res: bool)
        ensures
            res == self@.over(),
    {
        let alone = self.peer_set.is_empty();
        assert(alone == (self@.heads.dom() =~= Set::<PeerId>::empty()));
        self.current_range.start >= self.current_range.end || alone
    }

    /// Drops the peers whose head lies before the range.
    fn drop_stale_peers(&mut self)
        ensures
            final(self)@ == (RangeSyncView {
                heads: useful_heads(old(self)@.heads, old(self)@.start),
                ..old(self)@
            }),
    {
        let start_slot: u64 = self.current_range.start;
        let total: usize = self.peer_set.len();
        let mut kept: KeyMap<PeerId, u64> = KeyMap::new();
        let ghost order = self.peer_set.order();
        let mut i: usize = 0;
        assert(entries_map(order.take(0)) =~= Map::<PeerId, u64>::empty());
        assert(useful_heads(entries_map(order.take(0)), start_slot) =~= kept@);
        while i < total
            invariant
                i <= total,
                total == self.peer_set.order().len(),
                order == self.peer_set.order(),
                distinct_keys(order),
                kept@ == useful_heads(entries_map(order.take(i as int)), start_slot),
            decreases total - i,
        {
            let head: u64 = *self.peer_set.value_at(i);
            let peer = self.peer_set.key_at(i);
            if head >= start_slot {
                kept.insert(peer, head);
            }
            proof {
                lemma_take_one_more(order, i as int);
                assert(useful_heads(entries_map(order.take(i + 1)), start_slot) =~= kept@);
            }
            i = i + 1;
        }
        assert(order.take(total as int) =~= order);
        self.peer_set = kept;
    }
}

/// A key of the map that a list of entries stands for has a place in the list.
proof fn lemma_key_has_place(order: Seq<(PeerId, u64)>, p: PeerId)
    requires
        distinct_keys(order),
        entries_map(order).contains_key(p),
    ensures
        exists|j: int|
            0 <= j < order.len() && #[trigger] order[j] == (p, entries_map(order)[p]),
{
    let j = choose|j: int| 0 <= j < order.len() && (#[trigger] order[j]).0 == p;
    lemma_entry_in_map(order, j);
    assert(order[j] == (p, entries_map(order)[p]));
}

proof fn lemma_take_one_more(order: Seq<(PeerId, u64)>, i: int)
    requires
        distinct_keys(order),
        0 <= i < order.len(),
    ensures
        entries_map(order.take(i + 1)) == entries_map(order.take(i)).insert(
            order[i].0,
            order[i].1,
        ),
        !entries_map(order.take(i)).contains_key(order[i].0),
{
    let less = order.take(i);
    let more = order.take(i + 1);
    assert(distinct_keys(less));
    assert(distinct_keys(more));
    assert(more[i] == order[i]);
    lemma_entry_in_map(more, i);
    assert forall|p: PeerId| p != order[i].0 implies (entries_map(more).contains_key(p)
        <==> entries_map(less).contains_key(p)) && (entries_map(less).contains_key(p)
        ==> entries_map(less)[p] == entries_map(more)[p]) by {
        if entries_map(less).contains_key(p) {
            lemma_key_has_place(less, p);
            let j = choose|j: int|
                0 <= j < less.len() && #[trigger] less[j] == (p, entries_map(less)[p]);
            assert(more[j] == less[j]);
            lemma_entry_in_map(more, j);
        }
        if entries_map(more).contains_key(p) {
            lemma_key_has_place(more, p);
            let j = choose|j: int|
                0 <= j < more.len() && #[trigger] more[j] == (p, entries_map(more)[p]);
            assert(less[j] == more[j]);
        }
    }
    assert(entries_map(more) =~= entries_map(less).insert(order[i].0, order[i].1));
}

/// A batch lies inside the session's range, is no larger than the session allows, and asks a peer
/// for no slot beyond its head.
pub proof fn law_batch_stays_in_bounds(
    session: RangeSyncView,
    peer: PeerId,
    start: u64,
    end: u64,
)
    requires
        session.is_next_batch(peer, start, end),
    ensures
        session.start == start < end <= session.end,
        end - start <= session.max_batch,
        end - 1 <= session.heads[peer],
{
}

/// A session goes on without gaps: once a batch is done, the next one starts where it ended.
pub proof fn law_batches_follow_one_another(
    session: RangeSyncView,
    peer: PeerId,
    start: u64,
    end: u64,
)
    requires
        session.is_next_batch(peer, start, end),
    ensures
        session.completed((end - 1) as u64).start == end,
        session.completed((end - 1) as u64).end == session.end,
        session.completed((end - 1) as u64).start > session.start,
        !session.completed((end - 1) as u64).in_flight,
{
}

/// While a batch is under way no other is requested.
pub proof fn law_one_batch_at_a_time(
    session: RangeSyncView,
    peer: PeerId,
    start: u64,
    end: u64,
)
    requires
        session.in_flight,
    ensures
        !session.is_next_batch(peer, start, end),
{
}

/// No operation leaves a peer in the session that has nothing left to serve.
pub proof fn law_only_useful_peers_stay(
    session: RangeSyncView,
    peer: PeerId,
    head: u64,
    end: u64,
    other: PeerId,
)
    ensures
        session.merged(peer, head, end).heads.contains_key(other) ==> session.merged(
            peer,
            head,
            end,
        ).heads[other] >= session.start,
        session.completed(end).heads.contains_key(other) ==> session.completed(end).heads[other]
            >= session.completed(end).start,
        session.without(peer).heads.contains_key(other) ==> session.without(peer).heads[other]
            >= session.start,
{
}

/// A peer that failed to serve a batch is not asked again.
pub proof fn law_failed_peer_is_not_asked_again(
    session: RangeSyncView,
    peer: PeerId,
    start: u64,
    end: u64,
)
    ensures
        !session.without(peer).is_next_batch(peer, start, end),
{
}

/// A range never shrinks at its end when peers are taken in, and never grows at its start.
pub proof fn law_range_only_advances(session: RangeSyncView, peer: PeerId, head: u64, end: u64)
    ensures
        session.merged(peer, head, end).start == session.start,
        session.merged(peer, head, end).end >= session.end,
        session.merged(peer, head, end).end >= end,
        session.completed(end).start >= session.start,
        session.completed(end).end == session.end,
{
}

proof fn lemma_some_head_is_highest(heads: Map<PeerId, u64>, peers: Set<PeerId>) -> (best: PeerId)
    requires
        peers.finite(),
        peers.len() > 0,
        peers.subset_of(heads.dom()),
    ensures
        peers.contains(best),
        forall|p: PeerId| #[trigger] peers.contains(p) ==> heads[p] <= heads[best],
    decreases peers.len(),
{
    let one = peers.choose();
    let rest = peers.remove(one);
    if rest.len() == 0 {
        assert(rest =~= Set::empty());
        assert forall|p: PeerId| #[trigger] peers.contains(p) implies heads[p] <= heads[one] by {
            if p != one {
                assert(rest.contains(p));
            }
        }
        one
    } else {
        let best = lemma_some_head_is_highest(heads, rest);
        assert forall|p: PeerId| #[trigger] peers.contains(p) implies p == one || rest.contains(
            p,
        ) by {}
        if heads[one] >= heads[best] {
            one
        } else {
            best
        }
    }
}

/// A session that is idle, has slots left and has a peer with the first of them, goes on.
pub proof fn law_session_goes_on(session: RangeSyncView, helper: PeerId)
    requires
        !session.in_flight,
        session.start < session.end,
        session.max_batch > 0,
        session.heads.dom().finite(),
        session.heads.contains_key(helper),
        session.heads[helper] >= session.start,
    ensures
        exists|peer: PeerId, start: u64, end: u64| session.is_next_batch(peer, start, end),
{
    let best = lemma_some_head_is_highest(session.heads, session.heads.dom());
    assert(session.heads.dom().contains(helper));
    assert(session.best_peer(best));
    assert(session.is_next_batch(
        best,
        session.start,
        session.batch_end(session.heads[best]) as u64,
    ));
}

} // verus!
