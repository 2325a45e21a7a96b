//! What holds of requests and responses, whatever the order in which they come.
use crate::net::fetch::fetch_tracked;
use crate::net::range_sync::{MAX_REQUEST_BLOCKS, MAX_SYNC_RANGE};
use crate::net::req_resp::{
    event_outcome, is_next_request, places, range_answer_of, range_failed, range_received,
    range_sent, settled, status_taken, FetchedBlock, InboundResponse, RangeAnswer, RangeRequest,
    ReqRespAction, ReqRespEvent,
};
use crate::net::server::{P2PView, PendingRequestKind};
use crate::primitives::{PeerId, RequestId, H256};
use vstd::prelude::*;

verus! {

/// A request is answered with at most as many slots as one request may ask for, beginning with
/// the slot that was asked for, and with an error where more or none are asked for.
pub proof fn law_served_ranges_are_bounded(start_slot: u64, count: u64)
    ensures
        range_answer_of(start_slot, count) matches RangeAnswer::Slots { start_slot: s, end_slot } ==> {
            &&& s == start_slot
            &&& end_slot - start_slot + 1 == count
            &&& count <= MAX_REQUEST_BLOCKS
        },
        range_answer_of(start_slot, count) == RangeAnswer::Invalid <==> count == 0 || count
            > MAX_REQUEST_BLOCKS,
{
}

/// A session that a peer's status opens covers slots that we do not have and the peer has, and
/// not more of them than one session takes on.
pub proof fn law_opened_session_covers_what_is_missing(
    server: P2PView,
    our_head: u64,
    peer: PeerId,
    head: u64,
)
    requires
        server.session is None,
        our_head < head,
    ensures
        status_taken(server, our_head, peer, head).session matches Some(s) && {
            &&& s.start == our_head + 1
            &&& s.end <= head + 1
            &&& s.end - s.start <= MAX_SYNC_RANGE
            &&& head < u64::MAX && head - our_head <= MAX_SYNC_RANGE ==> s.end == head + 1
        },
{
}

/// A peer that is not ahead of us changes nothing.
pub proof fn law_peers_behind_us_change_nothing(
    server: P2PView,
    our_head: u64,
    peer: PeerId,
    head: u64,
)
    requires
        head <= our_head,
    ensures
        status_taken(server, our_head, peer, head) == server,
{
}

/// Whether every peer of the session has something left to serve.
pub open spec fn peers_are_useful(server: P2PView) -> bool {
    server.session matches Some(s) ==> forall|p: PeerId| #[trigger]
        s.heads.contains_key(p) ==> s.heads[p] >= s.start
}

/// Whatever happens to the session, its peers have something left to serve.
pub proof fn law_session_keeps_useful_peers(
    server: P2PView,
    our_head: u64,
    peer: PeerId,
    head: u64,
    blocks: Seq<FetchedBlock>,
    end_slot: u64,
    request: RangeRequest,
    id: RequestId,
)
    requires
        peers_are_useful(server),
    ensures
        peers_are_useful(status_taken(server, our_head, peer, head)),
        peers_are_useful(range_failed(server, peer)),
        peers_are_useful(range_received(server, peer, blocks, end_slot)),
        peers_are_useful(range_sent(server, request, id)),
{
}

/// While a request for a batch is under way no other is sent, whatever statuses come in.
pub proof fn law_no_second_batch_while_one_is_under_way(
    server: P2PView,
    request: RangeRequest,
    id: RequestId,
    our_head: u64,
    peer: PeerId,
    head: u64,
    other: RangeRequest,
)
    requires
        server.session is Some,
    ensures
        !is_next_request(range_sent(server, request, id).session, other),
        !is_next_request(
            status_taken(range_sent(server, request, id), our_head, peer, head).session,
            other,
        ),
{
}

/// The response to a batch lets the session go on where the batch ended.
pub proof fn law_received_batch_moves_the_session_on(
    server: P2PView,
    request: RangeRequest,
    id: RequestId,
    blocks: Seq<FetchedBlock>,
)
    requires
        server.linked,
        blocks.len() > 0,
        is_next_request(server.session, request),
    ensures
        ({
            let sent = range_sent(server, request, id);
            let end_slot = (request.start_slot + request.count - 1) as u64;
            let after = range_received(settled(sent, id), request.peer, blocks, end_slot);
            &&& sent.outbound[id] == (PendingRequestKind::Range {
                start_slot: request.start_slot,
                end_slot,
            })
            &&& after.session matches Some(s) ==> s.start == request.start_slot + request.count
                && !s.in_flight
        }),
{
}

/// Exactly the wanted blocks are passed on, each once and in the order in which they came.
pub proof fn law_exactly_the_wanted_blocks_are_passed_on(
    blocks: Seq<FetchedBlock>,
    wanted: spec_fn(FetchedBlock) -> bool,
)
    requires
        blocks.len() <= usize::MAX,
    ensures
        forall|i: int, j: int|
            0 <= i < j < places(blocks, wanted).len() ==> (#[trigger] places(blocks, wanted)[i])
                < (#[trigger] places(blocks, wanted)[j]),
        forall|i: int|
            0 <= i < places(blocks, wanted).len() ==> (#[trigger] places(blocks, wanted)[i])
                < blocks.len() && wanted(blocks[places(blocks, wanted)[i] as int]),
        forall|k: int|
            0 <= k < blocks.len() && wanted(#[trigger] blocks[k]) ==> places(
                blocks,
                wanted,
            ).contains(k as usize),
    decreases blocks.len(),
{
    if blocks.len() > 0 {
        let less = blocks.drop_last();
        law_exactly_the_wanted_blocks_are_passed_on(less, wanted);
        let before = places(less, wanted);
        let all = places(blocks, wanted);
        assert forall|i: int| 0 <= i < before.len() implies (#[trigger] before[i]) < less.len()
            && less[before[i] as int] == blocks[before[i] as int] by {}
        assert forall|i: int| 0 <= i < all.len() implies (#[trigger] all[i]) < blocks.len()
            && wanted(blocks[all[i] as int]) by {
            if i < before.len() {
                assert(all[i] == before[i]);
            }
        }
        assert forall|i: int, j: int| 0 <= i < j < all.len() implies (#[trigger] all[i]) < (
        #[trigger] all[j]) by {
            assert(all[i] == before[i]);
            if j < before.len() {
                assert(all[j] == before[j]);
            }
        }
        assert forall|k: int|
            0 <= k < blocks.len() && wanted(#[trigger] blocks[k]) implies all.contains(
            k as usize,
        ) by {
            if k < less.len() {
                assert(less[k] == blocks[k]);
                let i = before.index_of(k as usize);
                assert(all[i] == k as usize);
            } else {
                assert(all[before.len() as int] == k as usize);
            }
        }
    }
}

/// A request is settled once: whatever a response brings, or a failure, the account of a request
/// that was not this one's stays as it is.
pub proof fn law_other_requests_stay_accounted_for(
    server: P2PView,
    event: ReqRespEvent,
    our_head: u64,
    after: P2PView,
    action: ReqRespAction,
    other: RequestId,
)
    requires
        event_outcome(server, event, our_head, after, action),
        match event {
            ReqRespEvent::Response { request_id, .. } => request_id != other,
            ReqRespEvent::OutboundFailure { request_id, .. } => request_id != other,
            _ => true,
        },
    ensures
        after.outbound.contains_key(other) == server.outbound.contains_key(other),
        server.outbound.contains_key(other) ==> after.outbound[other] == server.outbound[other],
        after.connected == server.connected,
        after.bootnodes == server.bootnodes,
        after.names == server.names,
        after.discovery == server.discovery,
        after.local == server.local,
        after.wire == server.wire,
        after.linked == server.linked,
{
}

/// Blocks that answer a request of the other network's are ignored, and the request stays open.
pub proof fn law_answers_of_the_wrong_kind_change_nothing(
    server: P2PView,
    peer: PeerId,
    id: RequestId,
    blocks: Vec<FetchedBlock>,
    our_head: u64,
    after: P2PView,
    action: ReqRespAction,
)
    requires
        event_outcome(
            server,
            (ReqRespEvent::Response {
                peer,
                request_id: id,
                response: InboundResponse::Blocks(blocks),
            }),
            our_head,
            after,
            action,
        ),
        server.outbound.contains_key(id) ==> server.outbound[id] is BeaconRange
            || server.outbound[id] is BeaconRoot,
    ensures
        after == server,
        action == ReqRespAction::Unexpected,
{
}

/// A block that was asked for and came is not being fetched any more.
pub proof fn law_fetched_block_is_settled(
    server: P2PView,
    peer: PeerId,
    id: RequestId,
    root: H256,
    blocks: Vec<FetchedBlock>,
    at: int,
    our_head: u64,
    after: P2PView,
    action: ReqRespAction,
)
    requires
        0 <= at < blocks@.len(),
        blocks@[at].root == root,
        event_outcome(
            fetch_tracked(server, root, id),
            (ReqRespEvent::Response {
                peer,
                request_id: id,
                response: InboundResponse::Blocks(blocks),
            }),
            our_head,
            after,
            action,
        ),
    ensures
        !after.fetches.contains_key(root),
        !after.outbound.contains_key(id),
{
    assert(exists|i: int| 0 <= i < blocks@.len() && (#[trigger] blocks@[i]).root == root);
}

/// Whether a session that waits for a batch has a request for one under way.
pub open spec fn waits_for_a_request(server: P2PView) -> bool {
    server.session matches Some(s) ==> s.in_flight ==> exists|id: RequestId| #[trigger]
        server.outbound.contains_key(id) && server.outbound[id] is Range
}

/// A session never waits for nothing: whatever event is seen to, a session that still waits for
/// a batch has a request for one under way, which will be answered or fail.
pub proof fn law_no_session_waits_for_nothing(
    server: P2PView,
    event: ReqRespEvent,
    our_head: u64,
    after: P2PView,
    action: ReqRespAction,
)
    requires
        waits_for_a_request(server),
        event_outcome(server, event, our_head, after, action),
    ensures
        waits_for_a_request(after),
{
    if after.session matches Some(s) && s.in_flight {
        assert(server.session matches Some(t) && t.in_flight);
        let id = choose|id: RequestId| #[trigger]
            server.outbound.contains_key(id) && server.outbound[id] is Range;
        assert(after.outbound.contains_key(id) && after.outbound[id] is Range);
    }
}

/// Sending a request keeps sessions from waiting for nothing: that of a batch is itself under
/// way, and that of a block, under a number of its own, takes no other out of account.
pub proof fn law_sending_keeps_sessions_waiting_for_something(
    server: P2PView,
    request: RangeRequest,
    root: H256,
    id: RequestId,
    peer: PeerId,
)
    requires
        waits_for_a_request(server),
        !server.outbound.contains_key(id),
    ensures
        waits_for_a_request(range_sent(server, request, id)),
        waits_for_a_request(range_failed(server, peer)),
        waits_for_a_request(fetch_tracked(server, root, id)),
{
    let sent = range_sent(server, request, id);
    assert(sent.outbound.contains_key(id) && sent.outbound[id] is Range);
    if server.session matches Some(s) && s.in_flight {
        let other = choose|other: RequestId| #[trigger]
            server.outbound.contains_key(other) && server.outbound[other] is Range;
        let fetching = fetch_tracked(server, root, id);
        assert(fetching.outbound.contains_key(other) && fetching.outbound[other] is Range);
    }
}

} // verus!
