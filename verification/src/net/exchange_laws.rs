//! What holds of every request that is sent or served and of every response to one.
use crate::net::fetch::{failure_outcome, fetch_failed};
use crate::net::range_sync::{law_session_goes_on, RangeSyncView};
use crate::net::req_resp::{
    beacon_root_failed, event_outcome, found, is_next_request, last_of_slots, next_request_of,
    range_answer_of, range_failed, range_received, range_sent, settled, status_of, status_taken,
    Checkpoint, FetchedBlock, InboundRequest, InboundResponse, RangeAnswer, RangeRequest,
    ReqRespAction, ReqRespEvent, RootResponse,
};
use crate::net::req_resp_laws::law_exactly_the_wanted_blocks_are_passed_on;
use crate::net::server::{P2PView, PendingRequestKind};
use crate::primitives::{PeerId, RequestId, H256};
use vstd::prelude::*;

verus! {

/// Whether two servers differ in their catch-up session and their open requests at most.
pub open spec fn same_but_session_and_requests(a: P2PView, b: P2PView) -> bool {
    &&& a.linked == b.linked
    &&& a.wire == b.wire
    &&& a.connected == b.connected
    &&& a.fetches == b.fetches
    &&& a.beacon_fetches == b.beacon_fetches
    &&& a.bootnodes == b.bootnodes
    &&& a.names == b.names
    &&& a.discovery == b.discovery
    &&& a.local == b.local
}

/// A peer that is ahead joins the open session: the session stays open, its range comes to reach
/// the peer's head as far as one session goes and is never shortened, every peer that still has
/// something to serve keeps its head, and the new peer is among them with its own if it has.
pub proof fn law_peers_ahead_join_the_open_session(
    server: P2PView,
    session: RangeSyncView,
    our_head: u64,
    peer: PeerId,
    head: u64,
    other: PeerId,
)
    requires
        server.session == Some(session),
        our_head < head,
    ensures
        ({
            let after = status_taken(server, our_head, peer, head);
            let gap = head - our_head;
            let reach = our_head + 1 + (if gap <= 65536 {
                gap
            } else {
                65536
            });
            &&& after.session matches Some(s) && {
                &&& s.end >= session.end
                &&& reach <= u64::MAX ==> s.end >= reach
                &&& reach > u64::MAX ==> s.end == u64::MAX
                &&& s.end > session.end ==> s.end == reach || s.end == u64::MAX
                &&& s.start == session.start
                &&& s.in_flight == session.in_flight
                &&& s.max_batch == session.max_batch
                &&& head >= session.start ==> s.heads.contains_pair(peer, head)
                &&& other != peer && session.heads.contains_key(other) && session.heads[other]
                    >= session.start ==> s.heads.contains_pair(other, session.heads[other])
                &&& other != peer && s.heads.contains_key(other) ==> session.heads.contains_pair(
                    other,
                    s.heads[other],
                )
            }
            &&& same_but_session_and_requests(after, server)
            &&& after.outbound == server.outbound
        }),
{
}

/// A peer that is ahead opens a session where none is open: from the slot after our head to the
/// peer's head, as far as one session goes, with that peer alone, in batches of 1024 slots.
pub proof fn law_peers_ahead_open_a_session(
    server: P2PView,
    our_head: u64,
    peer: PeerId,
    head: u64,
    other: PeerId,
)
    requires
        server.session is None,
        our_head < head,
    ensures
        ({
            let after = status_taken(server, our_head, peer, head);
            let gap = head - our_head;
            let reach = our_head + 1 + (if gap <= 65536 {
                gap
            } else {
                65536
            });
            &&& after.session matches Some(s) && {
                &&& s.start == our_head + 1
                &&& reach <= u64::MAX ==> s.end == reach
                &&& reach > u64::MAX ==> s.end == u64::MAX
                &&& s.heads.contains_pair(peer, head)
                &&& other != peer ==> !s.heads.contains_key(other)
                &&& !s.in_flight
                &&& s.max_batch == 1024
            }
            &&& same_but_session_and_requests(after, server)
            &&& after.outbound == server.outbound
        }),
{
}

/// A status is followed by the request for the next batch of the session as it is then, and by
/// none if the peer is not ahead.
pub proof fn law_statuses_are_followed_by_the_next_batch(
    server: P2PView,
    peer: PeerId,
    id: RequestId,
    head_slot: u64,
    our_head: u64,
    after: P2PView,
    action: ReqRespAction,
)
    requires
        event_outcome(
            server,
            (ReqRespEvent::Response {
                peer,
                request_id: id,
                response: InboundResponse::Status { head_slot },
            }),
            our_head,
            after,
            action,
        ),
    ensures
        head_slot <= our_head ==> after == server && action == ReqRespAction::RequestRange(None),
        head_slot > our_head ==> after == status_taken(server, our_head, peer, head_slot) && (
        action matches ReqRespAction::RequestRange(next) && next_request_of(after.session, next)),
{
}

/// A request asks a peer of the session that is furthest ahead for a run of slots that starts
/// with the first one that is still to be requested, stays inside the session's range and the
/// peer's chain, and is no larger than the session allows; none is sent while one is under way.
pub proof fn law_requests_ask_for_what_is_due(
    session: RangeSyncView,
    request: RangeRequest,
    other: PeerId,
)
    requires
        is_next_request(Some(session), request),
    ensures
        request.start_slot == session.start,
        0 < request.count <= session.max_batch,
        request.start_slot + request.count <= session.end,
        session.heads.contains_key(request.peer),
        request.start_slot + request.count - 1 <= session.heads[request.peer],
        session.heads.contains_key(other) ==> session.heads[other] <= session.heads[request.peer],
        !session.in_flight,
{
}

/// There is a next request exactly if the session is free, has slots left, may ask for some, and
/// has a peer that reaches the first of them.
pub proof fn law_there_is_a_next_request_when_one_is_due(
    session: RangeSyncView,
    request: Option<RangeRequest>,
    helper: PeerId,
)
    requires
        next_request_of(Some(session), request),
        !session.in_flight,
        session.start < session.end,
        session.max_batch > 0,
        session.heads.dom().finite(),
        session.heads.contains_key(helper),
        session.heads[helper] >= session.start,
    ensures
        request is Some,
        forall|r: RangeRequest| !is_next_request(None, r),
{
    law_session_goes_on(session, helper);
    let (peer, start, end) = choose|peer: PeerId, start: u64, end: u64|
        session.is_next_batch(peer, start, end);
    let r = RangeRequest { peer, start_slot: start, count: (end - start) as u64 };
    assert(is_next_request(Some(session), r));
}

/// A batch that was sent marks the session as waiting and is kept in account by its first and
/// last slot; nothing else changes.
pub proof fn law_sent_batches_are_kept_in_account(
    server: P2PView,
    request: RangeRequest,
    id: RequestId,
    other: RequestId,
)
    requires
        request.count > 0,
        request.start_slot + request.count <= u64::MAX,
    ensures
        ({
            let after = range_sent(server, request, id);
            &&& after.outbound.contains_key(id)
            &&& after.outbound[id] matches PendingRequestKind::Range { start_slot, end_slot }
                && start_slot == request.start_slot && end_slot + 1 == request.start_slot
                + request.count
            &&& other != id ==> after.outbound.contains_key(other)
                == server.outbound.contains_key(other)
            &&& other != id && server.outbound.contains_key(other) ==> after.outbound[other]
                == server.outbound[other]
            &&& server.session is None ==> after.session is None
            &&& server.session matches Some(s) ==> (after.session matches Some(t) && t.in_flight
                && t.start == s.start && t.end == s.end && t.heads == s.heads && t.max_batch
                == s.max_batch)
            &&& same_but_session_and_requests(after, server)
        }),
{
}

/// A peer that fails to serve a batch leaves the session, which goes on with its range as it is
/// if another peer has something to serve, and is closed otherwise.
pub proof fn law_sessions_go_on_without_a_failing_peer(
    server: P2PView,
    session: RangeSyncView,
    peer: PeerId,
    helper: PeerId,
)
    requires
        server.session == Some(session),
    ensures
        ({
            let after = range_failed(server, peer);
            &&& helper != peer && session.heads.contains_key(helper) && session.heads[helper]
                >= session.start ==> (after.session matches Some(s) && s.heads.contains_pair(
                helper,
                session.heads[helper],
            ) && !s.heads.contains_key(peer) && s.start == session.start && s.end == session.end
                && !s.in_flight && s.max_batch == session.max_batch)
            &&& (forall|p: PeerId| #[trigger]
                session.heads.contains_key(p) && p != peer ==> session.heads[p] < session.start)
                ==> after.session is None
            &&& same_but_session_and_requests(after, server)
            &&& after.outbound == server.outbound
        }),
{
    let left = session.without(peer).heads;
    if helper != peer && session.heads.contains_key(helper) && session.heads[helper]
        >= session.start {
        assert(left.dom().contains(helper));
    }
    if forall|p: PeerId| #[trigger]
        session.heads.contains_key(p) && p != peer ==> session.heads[p] < session.start {
        assert(left.dom() =~= Set::<PeerId>::empty());
    }
}

/// A server without a session is not changed by a peer's failure.
pub proof fn law_no_session_no_failure(server: P2PView, peer: PeerId)
    requires
        server.session is None,
    ensures
        range_failed(server, peer) == server,
{
}

/// The blocks of a batch move the session on behind the batch: it stays open exactly if slots are
/// left and a peer that reaches them. Without a chain side the session is dropped, and a batch
/// without blocks is a failure of the peer.
pub proof fn law_batches_move_the_session_on(
    server: P2PView,
    session: RangeSyncView,
    peer: PeerId,
    blocks: Seq<FetchedBlock>,
    end_slot: u64,
    helper: PeerId,
)
    requires
        server.session == Some(session),
        session.start <= end_slot < u64::MAX,
    ensures
        ({
            let after = range_received(server, peer, blocks, end_slot);
            &&& blocks.len() == 0 ==> after == range_failed(server, peer)
            &&& blocks.len() > 0 && !server.linked ==> after.session is None
            &&& blocks.len() > 0 && server.linked && end_slot + 1 < session.end
                && session.heads.contains_key(helper) && session.heads[helper] > end_slot ==> (
            after.session matches Some(s) && s.start == end_slot + 1 && s.end == session.end
                && !s.in_flight && s.max_batch == session.max_batch && s.heads.contains_pair(
                helper,
                session.heads[helper],
            ))
            &&& blocks.len() > 0 && server.linked && end_slot + 1 >= session.end
                ==> after.session is None
            &&& blocks.len() > 0 && server.linked && (forall|p: PeerId| #[trigger]
                session.heads.contains_key(p) ==> session.heads[p] <= end_slot)
                ==> after.session is None
            &&& same_but_session_and_requests(after, server)
            &&& after.outbound == server.outbound
        }),
{
    let left = session.completed(end_slot).heads;
    if session.heads.contains_key(helper) && session.heads[helper] > end_slot {
        assert(left.dom().contains(helper));
    }
    if forall|p: PeerId| #[trigger]
        session.heads.contains_key(p) ==> session.heads[p] <= end_slot {
        assert(left.dom() =~= Set::<PeerId>::empty());
    }
}

/// Of a batch exactly the blocks inside the slots that were asked for are passed on, in the order
/// in which they came, where there is a chain side to take them; the request is settled.
pub proof fn law_blocks_of_a_batch_are_passed_on(
    server: P2PView,
    peer: PeerId,
    id: RequestId,
    start_slot: u64,
    end_slot: u64,
    blocks: Vec<FetchedBlock>,
    our_head: u64,
    after: P2PView,
    action: ReqRespAction,
    k: usize,
)
    requires
        blocks@.len() <= usize::MAX,
        k < blocks@.len(),
        server.outbound.contains_pair(id, (PendingRequestKind::Range { start_slot, end_slot })),
        event_outcome(
            server,
            (ReqRespEvent::Response {
                peer,
                request_id: id,
                response: InboundResponse::Blocks(blocks),
            }),
            our_head,
            after,
            action,
        ),
    ensures
        action matches ReqRespAction::RangeBlocks(res) && {
            &&& res.forward@.contains(k) <==> server.linked && start_slot <= blocks@[k as int].slot
                <= end_slot
            &&& forall|i: int, j: int|
                0 <= i < j < res.forward@.len() ==> (#[trigger] res.forward@[i]) < (
                #[trigger] res.forward@[j])
            &&& server.linked ==> next_request_of(after.session, res.next)
            &&& !server.linked ==> res.next is None
        },
        !after.outbound.contains_key(id),
        after == range_received(settled(server, id), peer, blocks@, end_slot),
{
    let wanted = crate::net::req_resp::in_slots(start_slot, end_slot);
    law_exactly_the_wanted_blocks_are_passed_on(blocks@, wanted);
    let all = crate::net::req_resp::places(blocks@, wanted);
    if server.linked && all.contains(k) {
        let i = all.index_of(k);
        assert(wanted(blocks@[all[i] as int]));
    }
    if start_slot <= blocks@[k as int].slot <= end_slot {
        assert(wanted(blocks@[k as int]));
    }
}

/// A batch that brings nothing passes nothing on and asks for nothing more.
pub proof fn law_an_empty_batch_is_a_failure(
    server: P2PView,
    peer: PeerId,
    id: RequestId,
    start_slot: u64,
    end_slot: u64,
    blocks: Vec<FetchedBlock>,
    our_head: u64,
    after: P2PView,
    action: ReqRespAction,
)
    requires
        blocks@.len() == 0,
        server.outbound.contains_pair(id, (PendingRequestKind::Range { start_slot, end_slot })),
        event_outcome(
            server,
            (ReqRespEvent::Response {
                peer,
                request_id: id,
                response: InboundResponse::Blocks(blocks),
            }),
            our_head,
            after,
            action,
        ),
    ensures
        action matches ReqRespAction::RangeBlocks(res) && res.forward@.len() == 0 && res.next
            is None,
        after == range_failed(settled(server, id), peer),
{
}

/// Of a response by root exactly the blocks with the root that was asked for are passed on, where
/// there is a chain side; the fetch ends exactly if there is one, and nothing else changes but
/// that the request is settled.
pub proof fn law_the_block_that_was_asked_for_is_passed_on(
    server: P2PView,
    peer: PeerId,
    id: RequestId,
    root: H256,
    blocks: Vec<FetchedBlock>,
    our_head: u64,
    after: P2PView,
    action: ReqRespAction,
    k: usize,
    other: H256,
)
    requires
        blocks@.len() <= usize::MAX,
        k < blocks@.len(),
        server.outbound.contains_pair(id, PendingRequestKind::Root(root)),
        event_outcome(
            server,
            (ReqRespEvent::Response {
                peer,
                request_id: id,
                response: InboundResponse::Blocks(blocks),
            }),
            our_head,
            after,
            action,
        ),
    ensures
        action matches ReqRespAction::RootBlocks { root: r, response } && r == root && (
        response matches RootResponse::Forward(forward) && (forward@.contains(k) <==> server.linked
            && blocks@[k as int].root == root)),
        blocks@[k as int].root == root ==> !after.fetches.contains_key(root),
        (forall|i: int| 0 <= i < blocks@.len() ==> (#[trigger] blocks@[i]).root != root)
            ==> after.fetches == server.fetches,
        other != root ==> after.fetches.contains_key(other) == server.fetches.contains_key(other),
        !after.outbound.contains_key(id),
        after.session == server.session,
{
    let wanted = crate::net::req_resp::has_root(root);
    law_exactly_the_wanted_blocks_are_passed_on(blocks@, wanted);
    let all = crate::net::req_resp::places(blocks@, wanted);
    if all.contains(k) {
        let i = all.index_of(k);
        assert(wanted(blocks@[all[i] as int]));
    }
    if blocks@[k as int].root == root {
        assert(wanted(blocks@[k as int]));
    }
}

/// A response by root that brings nothing is a failure of the peer, and the request stays in
/// account.
pub proof fn law_an_empty_response_by_root_is_a_failure(
    server: P2PView,
    peer: PeerId,
    id: RequestId,
    root: H256,
    blocks: Vec<FetchedBlock>,
    our_head: u64,
    after: P2PView,
    action: ReqRespAction,
)
    requires
        blocks@.len() == 0,
        server.outbound.contains_pair(id, PendingRequestKind::Root(root)),
        event_outcome(
            server,
            (ReqRespEvent::Response {
                peer,
                request_id: id,
                response: InboundResponse::Blocks(blocks),
            }),
            our_head,
            after,
            action,
        ),
    ensures
        action == (ReqRespAction::RootBlocks {
            root,
            response: RootResponse::Failed(failure_outcome(server, root)),
        }),
        after.outbound.contains_pair(id, PendingRequestKind::Root(root)),
        after.fetches == fetch_failed(server, root, peer).fetches,
        after.session == server.session,
{
}

/// What a peer's error does to a request of ours: one for a batch, or for beacon blocks, is
/// settled and the peer dropped or noted as failing; one for a block by root stays as it is; and
/// one that is not known changes nothing.
pub proof fn law_error_responses(
    server: P2PView,
    peer: PeerId,
    id: RequestId,
    our_head: u64,
    after: P2PView,
    action: ReqRespAction,
    root: H256,
    start_slot: u64,
    end_slot: u64,
)
    requires
        event_outcome(
            server,
            (ReqRespEvent::Response { peer, request_id: id, response: InboundResponse::Error }),
            our_head,
            after,
            action,
        ),
    ensures
        !server.outbound.contains_key(id) ==> after == server && action == ReqRespAction::Ignore,
        server.outbound.contains_pair(id, PendingRequestKind::Root(root)) ==> after == server
            && action == ReqRespAction::Ignore,
        server.outbound.contains_pair(id, (PendingRequestKind::Range { start_slot, end_slot }))
            ==> after == range_failed(settled(server, id), peer) && action
            == ReqRespAction::Ignore,
        server.outbound.contains_pair(
            id,
            (PendingRequestKind::BeaconRange { start_slot, end_slot }),
        ) ==> after == settled(server, id) && action == ReqRespAction::RotateBeaconRange,
        server.outbound.contains_pair(id, PendingRequestKind::BeaconRoot(root)) ==> after
            == beacon_root_failed(settled(server, id), root, peer) && action
            == ReqRespAction::Ignore,
{
}

/// What the failure of a request of ours does: it is settled, whatever it asked for, and the peer
/// is dropped or noted as failing; a block by root is tried again or given up; and a request that
/// is not kept in account, a greeting, is repeated exactly if the peer speaks another version.
pub proof fn law_failed_requests(
    server: P2PView,
    peer: PeerId,
    id: RequestId,
    unsupported_protocols: bool,
    our_head: u64,
    after: P2PView,
    action: ReqRespAction,
    root: H256,
    start_slot: u64,
    end_slot: u64,
)
    requires
        event_outcome(
            server,
            (ReqRespEvent::OutboundFailure { peer, request_id: id, unsupported_protocols }),
            our_head,
            after,
            action,
        ),
    ensures
        !server.outbound.contains_key(id) ==> after == server,
        !server.outbound.contains_key(id) && unsupported_protocols ==> action
            == ReqRespAction::RetryStatusVersion,
        !server.outbound.contains_key(id) && !unsupported_protocols ==> action
            == ReqRespAction::Ignore,
        server.outbound.contains_pair(id, PendingRequestKind::Root(root)) ==> after
            == fetch_failed(settled(server, id), root, peer) && action == (
        ReqRespAction::FetchFailed { root, failure: failure_outcome(server, root) }),
        server.outbound.contains_pair(id, (PendingRequestKind::Range { start_slot, end_slot }))
            ==> after == range_failed(settled(server, id), peer) && action
            == ReqRespAction::Ignore,
        server.outbound.contains_pair(
            id,
            (PendingRequestKind::BeaconRange { start_slot, end_slot }),
        ) ==> after == settled(server, id) && action == ReqRespAction::RotateBeaconRange,
        server.outbound.contains_pair(id, PendingRequestKind::BeaconRoot(root)) ==> after
            == beacon_root_failed(settled(server, id), root, peer) && action
            == ReqRespAction::Ignore,
        !after.outbound.contains_key(id),
{
}

/// Beacon blocks go to the beacon side with what was asked for, and settle that request; what
/// answers no beacon request changes nothing. A beacon status, and any other beacon response, is
/// handed on as it is.
pub proof fn law_beacon_responses(
    server: P2PView,
    peer: PeerId,
    id: RequestId,
    our_head: u64,
    after: P2PView,
    action: ReqRespAction,
    response: InboundResponse,
    root: H256,
    start_slot: u64,
    end_slot: u64,
)
    requires
        event_outcome(
            server,
            (ReqRespEvent::Response { peer, request_id: id, response }),
            our_head,
            after,
            action,
        ),
    ensures
        response is BeaconStatus ==> after == server && action
            == ReqRespAction::HandleBeaconStatus,
        response is BeaconOther ==> after == server && action == ReqRespAction::HandleBeaconOther,
        response is BeaconBlocks && server.outbound.contains_pair(
            id,
            (PendingRequestKind::BeaconRange { start_slot, end_slot }),
        ) ==> after == settled(server, id) && action == (ReqRespAction::HandleBeaconRange {
            start_slot,
            end_slot,
        }),
        response is BeaconBlocks && server.outbound.contains_pair(
            id,
            PendingRequestKind::BeaconRoot(root),
        ) ==> after == settled(server, id) && action == ReqRespAction::HandleBeaconRoot(root),
        response is BeaconBlocks && (!server.outbound.contains_key(id) || server.outbound[id]
            is Range || server.outbound[id] is Root) ==> after == server && action
            == ReqRespAction::Unexpected,
{
}

/// A request of a peer's changes nothing here, and each kind gets its own answer.
pub proof fn law_requests_are_answered(
    server: P2PView,
    request: InboundRequest,
    our_head: u64,
    after: P2PView,
    action: ReqRespAction,
    start_slot: u64,
    count: u64,
)
    requires
        event_outcome(server, ReqRespEvent::Request(request), our_head, after, action),
    ensures
        after == server,
        request is Status ==> action == ReqRespAction::AnswerStatus,
        request is BlocksByRoot ==> action == ReqRespAction::AnswerBlocksByRoot,
        request is Beacon ==> action == ReqRespAction::HandleBeaconRequest,
        request == (InboundRequest::BlocksByRange { start_slot, count }) ==> action
            == ReqRespAction::AnswerBlocksByRange(range_answer_of(start_slot, count)),
{
}

/// A request for 1 to 1024 slots is answered with exactly those slots, or with no blocks if they
/// run past the last slot; any other is refused.
pub proof fn law_ranges_are_served_as_asked(start_slot: u64, count: u64)
    ensures
        count == 0 || count > 1024 ==> range_answer_of(start_slot, count) == RangeAnswer::Invalid,
        1 <= count <= 1024 && start_slot + count - 1 <= u64::MAX ==> range_answer_of(
            start_slot,
            count,
        ) == (RangeAnswer::Slots { start_slot, end_slot: (start_slot + count - 1) as u64 }),
        1 <= count <= 1024 && start_slot + count - 1 > u64::MAX ==> range_answer_of(
            start_slot,
            count,
        ) == RangeAnswer::Empty,
{
}

/// A settled request is out of account, and nothing else changes.
pub proof fn law_settling_takes_one_request_out(server: P2PView, id: RequestId, other: RequestId)
    ensures
        !settled(server, id).outbound.contains_key(id),
        other != id ==> settled(server, id).outbound.contains_key(other)
            == server.outbound.contains_key(other),
        other != id && server.outbound.contains_key(other) ==> settled(server, id).outbound[other]
            == server.outbound[other],
        settled(server, id).session == server.session,
        same_but_session_and_requests(settled(server, id), server),
{
}

/// A peer that fails to serve a beacon block is noted for that block alone, whose count stays.
pub proof fn law_beacon_failures_are_noted(
    server: P2PView,
    root: H256,
    peer: PeerId,
    other: H256,
    other_peer: PeerId,
)
    ensures
        ({
            let after = beacon_root_failed(server, root, peer);
            &&& after.beacon_fetches.contains_key(other) == server.beacon_fetches.contains_key(
                other,
            )
            &&& other != root && server.beacon_fetches.contains_key(other)
                ==> after.beacon_fetches[other] == server.beacon_fetches[other]
            &&& server.beacon_fetches.contains_key(root) ==> {
                &&& after.beacon_fetches[root].attempts == server.beacon_fetches[root].attempts
                &&& after.beacon_fetches[root].failed.contains(peer)
                &&& other_peer != peer ==> after.beacon_fetches[root].failed.contains(other_peer)
                    == server.beacon_fetches[root].failed.contains(other_peer)
            }
            &&& after.fetches == server.fetches && after.outbound == server.outbound
                && after.session == server.session && after.connected == server.connected
        }),
{
}

/// The blocks that were found come in the order of the roots that they were looked up for, each
/// once: what is found for two lists together is what is found for each, one after the other.
pub proof fn law_found_blocks_keep_their_order<T>(a: Seq<Option<T>>, b: Seq<Option<T>>, block: T)
    ensures
        found(a + b) == found(a) + found(b),
        found(seq![Some(block)]) == seq![block],
        found(seq![None::<T>]) == Seq::<T>::empty(),
    decreases b.len(),
{
    assert(seq![Some(block)].drop_last() =~= Seq::<Option<T>>::empty());
    assert(seq![None::<T>].drop_last() =~= Seq::<Option<T>>::empty());
    assert(found(Seq::<Option<T>>::empty()) =~= Seq::<T>::empty());
    assert(found(seq![Some(block)]) =~= seq![block]);
    assert(found(seq![None::<T>]) =~= Seq::<T>::empty());
    if b.len() == 0 {
        assert(a + b =~= a);
        assert(found(a) + found(b) =~= found(a));
    } else {
        law_found_blocks_keep_their_order(a, b.drop_last(), block);
        assert((a + b).drop_last() =~= a + b.drop_last());
        assert((a + b).last() == b.last());
        assert(found(a + b) =~= found(a) + found(b));
    }
}

/// As many slots as were asked for lie from the first to the last one, and there is a last one
/// exactly if there are slots at all and all of them have numbers.
pub proof fn law_slots_are_counted_from_first_to_last(start_slot: u64, count: u64)
    ensures
        last_of_slots(start_slot, count) matches Some(end) ==> end - start_slot + 1 == count,
        last_of_slots(start_slot, count) is Some <==> 1 <= count && start_slot + count <= u64::MAX
            + 1,
{
}

/// A status names the finalized block and the head, each with its own root and slot.
pub proof fn law_statuses_name_finalized_and_head(finalized: Checkpoint, root: H256, slot: u64)
    ensures
        status_of(finalized, root, slot).finalized == finalized,
        status_of(finalized, root, slot).head.root == root,
        status_of(finalized, root, slot).head.slot == slot,
{
}

} // verus!
