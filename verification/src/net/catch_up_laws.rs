//! What holds of catch-up sessions and of fetches, whoever takes part in them.
use crate::net::fetch::{
    backoff_after, failure_outcome, fetch_failed, fetch_pool, fetch_tracked, pool_sought,
    FetchFailure,
};
use crate::net::range_sync::RangeSyncView;
use crate::net::server::{P2PView, PendingRequestKind};
use crate::primitives::{PeerId, RequestId, H256};
use vstd::prelude::*;

verus! {

/// A peer's advertised head is taken in where it reaches the session's first slot, every other
/// peer that does is kept with its head, and no peer is made up.
pub proof fn law_useful_peers_are_taken_in_and_kept(
    session: RangeSyncView,
    peer: PeerId,
    head: u64,
    end: u64,
    other: PeerId,
)
    ensures
        ({
            let after = session.merged(peer, head, end);
            &&& head >= session.start ==> after.heads.contains_pair(peer, head)
            &&& head < session.start ==> !after.heads.contains_key(peer)
            &&& other != peer && session.heads.contains_key(other) && session.heads[other]
                >= session.start ==> after.heads.contains_pair(other, session.heads[other])
            &&& other != peer && after.heads.contains_key(other) ==> session.heads.contains_pair(
                other,
                after.heads[other],
            )
        }),
{
}

/// Taking in a peer extends the range to the end that it brings, never shortens it, and changes
/// neither where it starts, nor whether a batch is under way, nor how large batches are.
pub proof fn law_taking_in_a_peer_extends_the_range(
    session: RangeSyncView,
    peer: PeerId,
    head: u64,
    end: u64,
)
    ensures
        ({
            let after = session.merged(peer, head, end);
            &&& after.end == session.end || after.end == end
            &&& after.end >= session.end && after.end >= end
            &&& after.start == session.start
            &&& after.in_flight == session.in_flight
            &&& after.max_batch == session.max_batch
        }),
{
}

/// A batch that is done moves the start right behind its last slot, never back, frees the session
/// for the next one, and keeps every peer that still has something to serve.
pub proof fn law_a_done_batch_moves_the_start(
    session: RangeSyncView,
    end_slot: u64,
    other: PeerId,
)
    requires
        end_slot < u64::MAX,
    ensures
        ({
            let after = session.completed(end_slot);
            &&& session.start <= end_slot ==> after.start == end_slot + 1
            &&& session.start > end_slot ==> after.start == session.start
            &&& after.end == session.end
            &&& after.max_batch == session.max_batch
            &&& !after.in_flight
            &&& session.heads.contains_key(other) && session.heads[other] >= after.start
                ==> after.heads.contains_pair(other, session.heads[other])
            &&& after.heads.contains_key(other) ==> session.heads.contains_pair(
                other,
                after.heads[other],
            )
        }),
{
}

/// A peer that fails is dropped, and with it nothing else: the range stays, the others that have
/// something to serve stay, and the session is free to ask one of them.
pub proof fn law_a_failing_peer_is_dropped_alone(
    session: RangeSyncView,
    peer: PeerId,
    other: PeerId,
)
    ensures
        ({
            let after = session.without(peer);
            &&& !after.heads.contains_key(peer)
            &&& other != peer && session.heads.contains_key(other) && session.heads[other]
                >= session.start ==> after.heads.contains_pair(other, session.heads[other])
            &&& after.heads.contains_key(other) ==> session.heads.contains_pair(
                other,
                after.heads[other],
            )
            &&& after.start == session.start
            &&& after.end == session.end
            &&& after.max_batch == session.max_batch
            &&& !after.in_flight
        }),
{
}

/// A batch asks one of the session's peers that is furthest ahead, for as many slots as there
/// are: it ends with the range, with the peer's head, with the largest batch allowed, or with the
/// last slot of all.
pub proof fn law_batches_are_as_large_as_can_be(
    session: RangeSyncView,
    peer: PeerId,
    start: u64,
    end: u64,
    other: PeerId,
)
    requires
        session.is_next_batch(peer, start, end),
    ensures
        session.heads.contains_key(peer),
        session.heads.contains_key(other) ==> session.heads[other] <= session.heads[peer],
        end == session.end || end == session.heads[peer] + 1 || end - start == session.max_batch
            || end == u64::MAX,
        !session.in_flight,
{
}

/// A session is over exactly if no slot is left to request or nobody is left to ask.
pub proof fn law_sessions_are_over_without_slots_or_peers(session: RangeSyncView, peer: PeerId)
    ensures
        session.start >= session.end ==> session.over(),
        session.start < session.end && session.heads.contains_key(peer) ==> !session.over(),
        session.over() && session.heads.contains_key(peer) ==> session.start >= session.end,
{
    if session.heads.contains_key(peer) {
        assert(session.heads.dom().contains(peer));
    }
}

/// A peer may be asked for a block exactly if it is connected and has not failed to serve it, or
/// all that are connected have.
pub proof fn law_whoever_has_not_failed_may_be_asked(server: P2PView, root: H256, peer: PeerId)
    ensures
        !server.fetches.contains_key(root) ==> (fetch_pool(server, root).contains(peer)
            <==> server.connected.contains(peer)),
        server.fetches.contains_key(root) ==> (fetch_pool(server, root).contains(peer) <==> (
        server.connected.contains(peer) && (!server.fetches[root].failed.contains(peer) || (forall|
            p: PeerId,
        | #[trigger]
            server.connected.contains(p) ==> server.fetches[root].failed.contains(p))))),
{
    if server.fetches.contains_key(root) {
        let left = server.connected.difference(server.fetches[root].failed);
        if left == Set::<PeerId>::empty() {
            assert forall|p: PeerId| #[trigger] server.connected.contains(p) implies
                server.fetches[root].failed.contains(p) by {
                if !server.fetches[root].failed.contains(p) {
                    assert(left.contains(p));
                }
            }
        } else {
            let q = choose|q: PeerId| left.contains(q);
            assert(exists|q: PeerId| left.contains(q)) by {
                if forall|q: PeerId| !left.contains(q) {
                    assert(left =~= Set::empty());
                }
            }
            assert(server.connected.contains(q) && !server.fetches[root].failed.contains(q));
        }
    } else {
        if server.connected == Set::<PeerId>::empty() {
            assert(!server.connected.contains(peer));
        }
    }
}

/// Seeking a peer to ask changes nothing while one is left that has not failed; once all have,
/// only the record of who failed is cleared, and only for that block.
pub proof fn law_seeking_a_peer_clears_at_most_the_failures(
    server: P2PView,
    root: H256,
    other: H256,
    peer: PeerId,
)
    ensures
        ({
            let after = pool_sought(server, root);
            &&& after.connected == server.connected && after.outbound == server.outbound
                && after.session == server.session && after.beacon_fetches
                == server.beacon_fetches && after.discovery == server.discovery && after.linked
                == server.linked && after.wire == server.wire && after.names == server.names
                && after.bootnodes == server.bootnodes && after.local == server.local
            &&& other != root ==> after.fetches.contains_key(other)
                == server.fetches.contains_key(other)
            &&& other != root && server.fetches.contains_key(other) ==> after.fetches[other]
                == server.fetches[other]
            &&& server.fetches.contains_key(root) ==> after.fetches.contains_key(root)
                && after.fetches[root].attempts == server.fetches[root].attempts
            &&& server.connected.contains(peer) && server.fetches.contains_key(root)
                && !server.fetches[root].failed.contains(peer) ==> after == server
            &&& server.connected.contains(peer) && server.fetches.contains_key(root) && (forall|
                p: PeerId,
            | #[trigger]
                server.connected.contains(p) ==> server.fetches[root].failed.contains(p))
                ==> after.fetches[root].failed == Set::<PeerId>::empty()
        }),
{
    if server.fetches.contains_key(root) {
        let left = server.connected.difference(server.fetches[root].failed);
        if server.connected.contains(peer) && !server.fetches[root].failed.contains(peer) {
            assert(left.contains(peer));
        }
        if server.connected.contains(peer) && (forall|p: PeerId| #[trigger]
            server.connected.contains(p) ==> server.fetches[root].failed.contains(p)) {
            assert(left =~= Set::empty());
        }
    }
}

/// A request that was sent is kept in account as one for its block, beside all others; a block
/// that was not being fetched is now, for the first time and without failures.
pub proof fn law_sent_fetches_are_tracked(
    server: P2PView,
    root: H256,
    id: RequestId,
    other: RequestId,
    other_root: H256,
)
    ensures
        ({
            let after = fetch_tracked(server, root, id);
            &&& after.outbound.contains_pair(id, PendingRequestKind::Root(root))
            &&& other != id ==> after.outbound.contains_key(other)
                == server.outbound.contains_key(other)
            &&& other != id && server.outbound.contains_key(other) ==> after.outbound[other]
                == server.outbound[other]
            &&& after.fetches.contains_key(root)
            &&& !server.fetches.contains_key(root) ==> after.fetches[root].attempts == 1
                && after.fetches[root].failed == Set::<PeerId>::empty()
            &&& server.fetches.contains_key(root) ==> after.fetches[root] == server.fetches[root]
            &&& other_root != root ==> after.fetches.contains_key(other_root)
                == server.fetches.contains_key(other_root)
            &&& other_root != root && server.fetches.contains_key(other_root)
                ==> after.fetches[other_root] == server.fetches[other_root]
            &&& after.connected == server.connected && after.session == server.session
                && after.beacon_fetches == server.beacon_fetches && after.discovery
                == server.discovery
        }),
{
}

/// A failure to serve a block is held against that peer, beside those that failed before, and
/// touches no other fetch; the first ten failures are each followed by a retry, after 5
/// milliseconds at first and after twice as long each time.
pub proof fn law_failures_are_held_against_the_peer(
    server: P2PView,
    root: H256,
    peer: PeerId,
    other: PeerId,
    other_root: H256,
)
    ensures
        ({
            let after = fetch_failed(server, root, peer);
            &&& server.fetches.contains_key(root) && 1 <= server.fetches[root].attempts <= 10 ==> {
                &&& after.fetches.contains_key(root)
                &&& after.fetches[root].attempts == server.fetches[root].attempts + 1
                &&& after.fetches[root].failed.contains(peer)
                &&& other != peer ==> after.fetches[root].failed.contains(other)
                    == server.fetches[root].failed.contains(other)
                &&& failure_outcome(server, root) is Retry
            }
            &&& server.fetches.contains_key(root) && server.fetches[root].attempts > 10 ==> {
                &&& !after.fetches.contains_key(root)
                &&& failure_outcome(server, root) == FetchFailure::GaveUp
            }
            &&& !server.fetches.contains_key(root) ==> after == server && failure_outcome(
                server,
                root,
            ) == FetchFailure::NotPending
            &&& other_root != root ==> after.fetches.contains_key(other_root)
                == server.fetches.contains_key(other_root)
            &&& other_root != root && server.fetches.contains_key(other_root)
                ==> after.fetches[other_root] == server.fetches[other_root]
            &&& after.connected == server.connected && after.outbound == server.outbound
                && after.session == server.session && after.beacon_fetches
                == server.beacon_fetches && after.discovery == server.discovery
        }),
{
}

/// The waits before the retries of a fetch, in milliseconds.
pub proof fn law_the_waits_of_a_fetch(attempts: int, server: P2PView, root: H256)
    requires
        1 <= attempts <= 10,
        server.fetches.contains_key(root),
        server.fetches[root].attempts == attempts,
    ensures
        failure_outcome(server, root) matches FetchFailure::Retry { backoff_ms } && {
            &&& attempts == 1 ==> backoff_ms == 5
            &&& attempts == 2 ==> backoff_ms == 10
            &&& attempts == 3 ==> backoff_ms == 20
            &&& attempts == 4 ==> backoff_ms == 40
            &&& attempts == 5 ==> backoff_ms == 80
            &&& attempts == 6 ==> backoff_ms == 160
            &&& attempts == 7 ==> backoff_ms == 320
            &&& attempts == 8 ==> backoff_ms == 640
            &&& attempts == 9 ==> backoff_ms == 1280
            &&& attempts == 10 ==> backoff_ms == 2560
        },
{
    crate::net::fetch::law_backoff_doubles(1);
    crate::net::fetch::law_backoff_doubles(2);
    crate::net::fetch::law_backoff_doubles(3);
    crate::net::fetch::law_backoff_doubles(4);
    crate::net::fetch::law_backoff_doubles(5);
    crate::net::fetch::law_backoff_doubles(6);
    crate::net::fetch::law_backoff_doubles(7);
    crate::net::fetch::law_backoff_doubles(8);
    crate::net::fetch::law_backoff_doubles(9);
    assert(backoff_after(10) == 2560);
}

} // verus!
