//! Requests and responses: serving blocks, catching up, and keeping account of what was asked.
use crate::net::fetch::{failure_outcome, fetch_failed, FetchFailure};
use crate::net::range_sync::{
    least, RangeSyncState, RangeSyncView, MAX_REQUEST_BLOCKS, MAX_SYNC_RANGE,
};
use crate::net::server::{
    fetch_views, P2PServer, P2PView, PendingRequestKind, PendingRequestView,
};
use crate::primitives::{Key, PeerId, RequestId, H256};
use vstd::prelude::*;

verus! {

/// A block that a response brought, as far as it is looked at here.
#[derive(Clone, Copy, Debug)]
pub struct FetchedBlock {
    /// The block's slot.
    pub slot: u64,
    /// The block's root.
    pub root: H256,
}

/// A request for blocks by their slots.
#[derive(Clone, Copy, Debug)]
pub struct RangeRequest {
    /// The peer to ask.
    pub peer: PeerId,
    /// The first slot.
    pub start_slot: u64,
    /// How many slots.
    pub count: u64,
}

/// The answer to a request for blocks by their slots.
#[derive(Clone, Copy, Debug, PartialEq, Eq, Structural)]
pub enum RangeAnswer {
    /// An error: no slots were asked for, or too many.
    Invalid,
    /// No blocks: the slots run past the last one.
    Empty,
    /// The canonical blocks of these slots, both ends included.
    Slots {
        /// The first slot.
        start_slot: u64,
        /// The last slot.
        end_slot: u64,
    },
}

/// What to do with the blocks of a range.
#[derive(Debug)]
pub struct RangeResponse {
    /// The places of the blocks to pass on to the chain side.
    pub forward: Vec<usize>,
    /// The request to send next.
    pub next: Option<RangeRequest>,
}

/// What to do with the response to a request by root.
#[derive(Debug)]
pub enum RootResponse {
    /// There was no block in it.
    Failed(FetchFailure),
    /// Pass the blocks at these places on to the chain side.
    Forward(Vec<usize>),
}

/// A request that a peer sent.
#[derive(Clone, Copy, Debug)]
pub enum InboundRequest {
    /// For our status.
    Status,
    /// For blocks by their roots.
    BlocksByRoot,
    /// For blocks by their slots.
    BlocksByRange {
        /// The first slot.
        start_slot: u64,
        /// How many slots.
        count: u64,
    },
    /// One of the beacon network's.
    Beacon,
}

/// A response that a peer sent.
#[derive(Debug)]
pub enum InboundResponse {
    /// The peer's status.
    Status {
        /// The slot of the peer's head.
        head_slot: u64,
    },
    /// The peer's status on the beacon network.
    BeaconStatus,
    /// Beacon blocks.
    BeaconBlocks,
    /// Anything else of the beacon network's.
    BeaconOther,
    /// Lean blocks.
    Blocks(Vec<FetchedBlock>),
    /// An error.
    Error,
}

/// Something that happened to a request or a response.
#[derive(Debug)]
pub enum ReqRespEvent {
    /// A request came in.
    Request(InboundRequest),
    /// A response came in.
    Response {
        /// The peer that sent it.
        peer: PeerId,
        /// The request that it answers.
        request_id: RequestId,
        /// What it brought.
        response: InboundResponse,
    },
    /// A request of ours failed.
    OutboundFailure {
        /// The peer that was asked.
        peer: PeerId,
        /// The request.
        request_id: RequestId,
        /// Whether the peer does not speak the request's protocol.
        unsupported_protocols: bool,
    },
    /// A request of a peer's failed.
    InboundFailure,
    /// A response of ours was sent.
    ResponseSent,
}

/// What to do about it.
#[derive(Debug)]
pub enum ReqRespAction {
    /// Nothing.
    Ignore,
    /// Nothing: the response answers no request of its kind.
    Unexpected,
    /// Answer with our status.
    AnswerStatus,
    /// Answer with the blocks that are found.
    AnswerBlocksByRoot,
    /// Answer with the blocks of the slots.
    AnswerBlocksByRange(RangeAnswer),
    /// Hand the request to the beacon side.
    HandleBeaconRequest,
    /// Send the request, if there is one.
    RequestRange(Option<RangeRequest>),
    /// Pass blocks on, and send the request, if there is one.
    RangeBlocks(RangeResponse),
    /// Pass blocks on, or see to the failed fetch.
    RootBlocks {
        /// The block that was asked for.
        root: H256,
        /// What to do.
        response: RootResponse,
    },
    /// See to the failed fetch.
    FetchFailed {
        /// The block that was asked for.
        root: H256,
        /// What follows.
        failure: FetchFailure,
    },
    /// Hand the status to the beacon side.
    HandleBeaconStatus,
    /// Hand the blocks of a range to the beacon side.
    HandleBeaconRange {
        /// The first slot that was asked for.
        start_slot: u64,
        /// The last slot that was asked for.
        end_slot: u64,
    },
    /// Hand the block to the beacon side.
    HandleBeaconRoot(H256),
    /// Hand the response to the beacon side.
    HandleBeaconOther,
    /// Drop the peer from the beacon session, and ask another.
    RotateBeaconRange,
    /// Greet the peer again, in the other version of the greeting.
    RetryStatusVersion,
}

/// Whether `request` is what the session asks for next.
pub open spec fn is_next_request(session: Option<RangeSyncView>, request: RangeRequest) -> bool {
    session matches Some(s) && request.start_slot + request.count <= u64::MAX && s.is_next_batch(
        request.peer,
        request.start_slot,
        (request.start_slot + request.count) as u64,
    )
}

/// Whether `request` is a right choice of what the session asks for next, and is none only if
/// there is nothing to ask for.
pub open spec fn next_request_of(
    session: Option<RangeSyncView>,
    request: Option<RangeRequest>,
) -> bool {
    match request {
        Some(r) => is_next_request(session, r),
        None => forall|r: RangeRequest| !is_next_request(session, r),
    }
}

/// The server once `peer` failed to serve a batch.
pub open spec fn range_failed(server: P2PView, peer: PeerId) -> P2PView {
    match server.session {
        Some(s) => P2PView {
            session: if s.without(peer).heads.dom() == Set::<PeerId>::empty() {
                None
            } else {
                Some(s.without(peer))
            },
            ..server
        },
        None => server,
    }
}

/// The server once a request for a batch was sent.
pub open spec fn range_sent(server: P2PView, request: RangeRequest, id: RequestId) -> P2PView {
    P2PView {
        session: match server.session {
            Some(s) => Some(RangeSyncView { in_flight: true, ..s }),
            None => None,
        },
        outbound: server.outbound.insert(
            id,
            PendingRequestKind::Range {
                start_slot: request.start_slot,
                end_slot: (request.start_slot + request.count - 1) as u64,
            },
        ),
        ..server
    }
}

/// Where a session that starts at `our_head` for a peer at `head` ends.
pub open spec fn session_end(our_head: u64, head: u64) -> int {
    least(our_head + 1 + least(head - our_head, MAX_SYNC_RANGE as int), u64::MAX as int)
}

/// The server once a peer's status was taken in.
pub open spec fn status_taken(server: P2PView, our_head: u64, peer: PeerId, head: u64) -> P2PView {
    if head <= our_head {
        server
    } else {
        P2PView {
            session: Some(
                match server.session {
                    Some(s) => s.merged(peer, head, session_end(our_head, head) as u64),
                    None => RangeSyncView {
                        start: (our_head + 1) as u64,
                        end: session_end(our_head, head) as u64,
                        heads: Map::empty().insert(peer, head),
                        in_flight: false,
                        max_batch: MAX_REQUEST_BLOCKS,
                    },
                },
            ),
            ..server
        }
    }
}

/// The places of the blocks for which `wanted` holds, in order.
pub open spec fn places(blocks: Seq<FetchedBlock>, wanted: spec_fn(FetchedBlock) -> bool) -> Seq<
    usize,
>
    decreases blocks.len(),
{
    if blocks.len() == 0 {
        Seq::empty()
    } else if wanted(blocks.last()) {
        places(blocks.drop_last(), wanted).push((blocks.len() - 1) as usize)
    } else {
        places(blocks.drop_last(), wanted)
    }
}

/// Whether a block lies in the slots from `start_slot` to `end_slot`.
pub open spec fn in_slots(start_slot: u64, end_slot: u64) -> spec_fn(FetchedBlock) -> bool {
    |b: FetchedBlock| start_slot <= b.slot <= end_slot
}

/// Whether a block has the given root.
pub open spec fn has_root(root: H256) -> spec_fn(FetchedBlock) -> bool {
    |b: FetchedBlock| b.root == root
}

/// The server once the blocks of a batch came in.
pub open spec fn range_received(
    server: P2PView,
    peer: PeerId,
    blocks: Seq<FetchedBlock>,
    end_slot: u64,
) -> P2PView {
    if blocks.len() == 0 {
        range_failed(server, peer)
    } else if !server.linked {
        P2PView { session: None, ..server }
    } else {
        P2PView {
            session: match server.session {
                Some(s) => if s.completed(end_slot).over() {
                    None
                } else {
                    Some(s.completed(end_slot))
                },
                None => None,
            },
            ..server
        }
    }
}

/// Whether `response` is what to do with the blocks of a batch, the server being `after`.
pub open spec fn range_response_of(
    server: P2PView,
    after: P2PView,
    blocks: Seq<FetchedBlock>,
    start_slot: u64,
    end_slot: u64,
    response: RangeResponse,
) -> bool {
    if blocks.len() == 0 || !server.linked {
        response.forward@ == Seq::<usize>::empty() && response.next is None
    } else {
        &&& response.forward@ == places(blocks, in_slots(start_slot, end_slot))
        &&& next_request_of(after.session, response.next)
    }
}

/// The server once the response to a request by root came in.
pub open spec fn root_received(
    server: P2PView,
    peer: PeerId,
    request_id: RequestId,
    blocks: Seq<FetchedBlock>,
    root: H256,
) -> P2PView {
    if blocks.len() == 0 {
        fetch_failed(
            P2PView {
                outbound: server.outbound.insert(request_id, PendingRequestKind::Root(root)),
                ..server
            },
            root,
            peer,
        )
    } else if exists|i: int| 0 <= i < blocks.len() && (#[trigger] blocks[i]).root == root {
        P2PView { fetches: server.fetches.remove(root), ..server }
    } else {
        server
    }
}

/// Whether `response` is what to do with the response to a request by root.
pub open spec fn root_response_of(
    server: P2PView,
    blocks: Seq<FetchedBlock>,
    root: H256,
    response: RootResponse,
) -> bool {
    if blocks.len() == 0 {
        response == RootResponse::Failed(failure_outcome(server, root))
    } else {
        response matches RootResponse::Forward(forward) && forward@ == (if server.linked {
            places(blocks, has_root(root))
        } else {
            Seq::<usize>::empty()
        })
    }
}

/// The server once `peer` failed to serve a beacon block.
pub open spec fn beacon_root_failed(server: P2PView, root: H256, peer: PeerId) -> P2PView {
    if server.beacon_fetches.contains_key(root) {
        P2PView {
            beacon_fetches: server.beacon_fetches.insert(
                root,
                PendingRequestView {
                    failed: server.beacon_fetches[root].failed.insert(peer),
                    ..server.beacon_fetches[root]
                },
            ),
            ..server
        }
    } else {
        server
    }
}

/// The server without the account of a request.
pub open spec fn settled(server: P2PView, id: RequestId) -> P2PView {
    P2PView { outbound: server.outbound.remove(id), ..server }
}

/// The answer to a request for blocks by their slots.
pub open spec fn range_answer_of(start_slot: u64, count: u64) -> RangeAnswer {
    if count == 0 || count > MAX_REQUEST_BLOCKS {
        RangeAnswer::Invalid
    } else if start_slot + (count - 1) > u64::MAX {
        RangeAnswer::Empty
    } else {
        RangeAnswer::Slots { start_slot, end_slot: (start_slot + (count - 1)) as u64 }
    }
}

/// Whether `action` is what to do about a response, and `after` what the server is then.
pub open spec fn response_outcome(
    server: P2PView,
    peer: PeerId,
    id: RequestId,
    response: InboundResponse,
    our_head: u64,
    after: P2PView,
    action: ReqRespAction,
) -> bool {
    let asked = if server.outbound.contains_key(id) {
        Some(server.outbound[id])
    } else {
        None
    };
    match response {
        InboundResponse::Status { head_slot } => {
            &&& after == status_taken(server, our_head, peer, head_slot)
            &&& action matches ReqRespAction::RequestRange(next) && (if head_slot <= our_head {
                next is None
            } else {
                next_request_of(after.session, next)
            })
        },
        InboundResponse::BeaconStatus => after == server && action
            == ReqRespAction::HandleBeaconStatus,
        InboundResponse::BeaconOther => after == server && action
            == ReqRespAction::HandleBeaconOther,
        InboundResponse::BeaconBlocks => match asked {
            Some(PendingRequestKind::BeaconRange { start_slot, end_slot }) => after == settled(
                server,
                id,
            ) && action == (ReqRespAction::HandleBeaconRange { start_slot, end_slot }),
            Some(PendingRequestKind::BeaconRoot(root)) => after == settled(server, id) && action
                == ReqRespAction::HandleBeaconRoot(root),
            _ => after == server && action == ReqRespAction::Unexpected,
        },
        InboundResponse::Blocks(blocks) => match asked {
            Some(PendingRequestKind::Range { start_slot, end_slot }) => {
                &&& after == range_received(settled(server, id), peer, blocks@, end_slot)
                &&& action matches ReqRespAction::RangeBlocks(res) && range_response_of(
                    server,
                    after,
                    blocks@,
                    start_slot,
                    end_slot,
                    res,
                )
            },
            Some(PendingRequestKind::Root(root)) => {
                &&& after == root_received(settled(server, id), peer, id, blocks@, root)
                &&& action matches ReqRespAction::RootBlocks { root: r, response: res } && r == root
                    && root_response_of(server, blocks@, root, res)
            },
            _ => after == server && action == ReqRespAction::Unexpected,
        },
        InboundResponse::Error => match asked {
            Some(PendingRequestKind::Range { .. }) => after == range_failed(
                settled(server, id),
                peer,
            ) && action == ReqRespAction::Ignore,
            Some(PendingRequestKind::Root(_)) => after == server && action
                == ReqRespAction::Ignore,
            Some(PendingRequestKind::BeaconRange { .. }) => after == settled(server, id) && action
                == ReqRespAction::RotateBeaconRange,
            Some(PendingRequestKind::BeaconRoot(root)) => after == beacon_root_failed(
                settled(server, id),
                root,
                peer,
            ) && action == ReqRespAction::Ignore,
            None => after == server && action == ReqRespAction::Ignore,
        },
    }
}

/// Whether `action` is what to do about a failed request of ours, and `after` what the server is
/// then.
pub open spec fn failure_handled(
    server: P2PView,
    peer: PeerId,
    id: RequestId,
    unsupported_protocols: bool,
    after: P2PView,
    action: ReqRespAction,
) -> bool {
    if !server.outbound.contains_key(id) {
        after == server && action == (if unsupported_protocols {
            ReqRespAction::RetryStatusVersion
        } else {
            ReqRespAction::Ignore
        })
    } else {
        match server.outbound[id] {
            PendingRequestKind::Root(root) => after == fetch_failed(
                settled(server, id),
                root,
                peer,
            ) && action == (ReqRespAction::FetchFailed {
                root,
                failure: failure_outcome(server, root),
            }),
            PendingRequestKind::Range { .. } => after == range_failed(settled(server, id), peer)
                && action == ReqRespAction::Ignore,
            PendingRequestKind::BeaconRange { .. } => after == settled(server, id) && action
                == ReqRespAction::RotateBeaconRange,
            PendingRequestKind::BeaconRoot(root) => after == beacon_root_failed(
                settled(server, id),
                root,
                peer,
            ) && action == ReqRespAction::Ignore,
        }
    }
}

/// Whether `action` is what to do about an event, and `after` what the server is then.
pub open spec fn event_outcome(
    server: P2PView,
    event: ReqRespEvent,
    our_head: u64,
    after: P2PView,
    action: ReqRespAction,
) -> bool {
    match event {
        ReqRespEvent::Request(request) => after == server && action == (match request {
            InboundRequest::Status => ReqRespAction::AnswerStatus,
            InboundRequest::BlocksByRoot => ReqRespAction::AnswerBlocksByRoot,
            InboundRequest::BlocksByRange { start_slot, count } =>
                ReqRespAction::AnswerBlocksByRange(range_answer_of(start_slot, count)),
            InboundRequest::Beacon => ReqRespAction::HandleBeaconRequest,
        }),
        ReqRespEvent::Response { peer, request_id, response } => response_outcome(
            server,
            peer,
            request_id,
            response,
            our_head,
            after,
            action,
        ),
        ReqRespEvent::OutboundFailure { peer, request_id, unsupported_protocols } =>
            failure_handled(server, peer, request_id, unsupported_protocols, after, action),
        ReqRespEvent::InboundFailure => after == server && action == ReqRespAction::Ignore,
        ReqRespEvent::ResponseSent => after == server && action == ReqRespAction::Ignore,
    }
}

/// The last of `count` slots from `start_slot` on, if there are any and they all exist.
pub open spec fn last_of_slots(start_slot: u64, count: u64) -> Option<u64> {
    if count == 0 || start_slot + (count - 1) > u64::MAX {
        None
    } else {
        Some((start_slot + (count - 1)) as u64)
    }
}

/// The last of `count` slots from `start_slot` on, if there are any and they all exist.
pub fn canonical_blocks_by_range(start_slot: u64, count: u64) -> (res: Option<u64>)
    ensures
        res == last_of_slots(start_slot, count),
{
    if count == 0 {
        return None;
    }
    start_slot.checked_add(count - 1)
}

/// The answer to a request for blocks by their slots: an error where none or too many are asked
/// for.
pub fn handle_blocks_by_range_request(start_slot: u64, count: u64) -> (res: RangeAnswer)
    ensures
        res == range_answer_of(start_slot, count),
{
    if count == 0 || count > MAX_REQUEST_BLOCKS {
        return RangeAnswer::Invalid;
    }
    match canonical_blocks_by_range(start_slot, count) {
        Some(end_slot) => RangeAnswer::Slots { start_slot, end_slot },
        None => RangeAnswer::Empty,
    }
}

/// A block and its slot.
#[derive(Clone, Copy, Debug)]
pub struct Checkpoint {
    /// The block's root.
    pub root: H256,
    /// The block's slot.
    pub slot: u64,
}

/// What a node tells others of its chain.
#[derive(Clone, Copy, Debug)]
pub struct Status {
    /// The latest finalized block.
    pub finalized: Checkpoint,
    /// The head.
    pub head: Checkpoint,
}

/// What a node with the given finalized block and head tells others.
pub open spec fn status_of(finalized: Checkpoint, head_root: H256, head_slot: u64) -> Status {
    Status { finalized, head: Checkpoint { root: head_root, slot: head_slot } }
}

/// What the node tells others of its chain: the latest finalized block as it is recorded, and
/// the head with the slot of its own header.
pub fn build_status(finalized: Checkpoint, head_root: H256, head_slot: u64) -> (res: Status)
    ensures
        res == status_of(finalized, head_root, head_slot),
{
    Status { finalized, head: Checkpoint { root: head_root, slot: head_slot } }
}

/// What was found, in order.
pub open spec fn found<T>(lookups: Seq<Option<T>>) -> Seq<T>
    decreases lookups.len(),
{
    if lookups.len() == 0 {
        Seq::empty()
    } else {
        match lookups.last() {
            Some(block) => found(lookups.drop_last()).push(block),
            None => found(lookups.drop_last()),
        }
    }
}

/// The blocks that were found for the roots of a request, in order; roots without a block are
/// passed over.
pub fn handle_blocks_by_root_request<T>(lookups: Vec<Option<T>>) -> (res: Vec<T>)
    ensures
        res@ == found(lookups@),
{
    let ghost all = lookups@;
    let mut rest: Vec<Option<T>> = lookups;
    let mut blocks: Vec<T> = Vec::new();
    let ghost mut done: int = 0;
    assert(all.skip(0) =~= all);
    while rest.len() > 0
        invariant
            0 <= done <= all.len(),
            rest@ == all.skip(done),
            blocks@ == found(all.take(done)),
        decreases rest@.len(),
    {
        let lookup = rest.remove(0);
        proof {
            assert(all.take(done + 1).drop_last() =~= all.take(done));
            assert(all.take(done + 1).last() == lookup);
            done = done + 1;
            assert(rest@ =~= all.skip(done));
        }
        match lookup {
            Some(block) => {
                blocks.push(block);
            },
            None => {},
        }
    }
    assert(all.take(done) =~= all);
    blocks
}

impl P2PServer {
    /// The request that the catch-up session sends next, if there is one.
    pub fn next_range_request(&self) -> (res: Option<RangeRequest>)
        ensures
            next_request_of(self@.session, res),
    {
        match &self.range_sync_state {
            None => None,
            Some(state) => match state.next_batch() {
                Some((peer, batch)) => Some(
                    RangeRequest {
                        peer,
                        start_slot: batch.start,
                        count: batch.end - batch.start,
                    },
                ),
                None => None,
            },
        }
    }

    /// Notes that a request for a batch was sent, with its number, or could not be sent; answers
    /// whether it was.
    pub fn on_range_sent(&mut self, request: &RangeRequest, request_id: Option<RequestId>) -> (res:
        bool)
        requires
            request.count > 0,
            request.start_slot + request.count <= u64::MAX,
        ensures
            res == (request_id is Some),
            final(self)@ == (match request_id {
                Some(id) => range_sent(old(self)@, *request, id),
                None => range_failed(old(self)@, request.peer),
            }),
            old(self)@.wf() ==> final(self)@.wf(),
    {
        match request_id {
            None => {
                self.fail_range_request(&request.peer);
                false
            },
            Some(id) => {
                self.range_sync_state = match self.range_sync_state.take() {
                    Some(mut state) => {
                        state.in_flight = true;
                        Some(state)
                    },
                    None => None,
                };
                self.outbound_requests.insert(
                    id,
                    PendingRequestKind::Range {
                        start_slot: request.start_slot,
                        end_slot: request.start_slot + request.count - 1,
                    },
                );
                assert(self@ =~= range_sent(old(self)@, *request, id));
                true
            },
        }
    }

    /// Drops a peer that failed to serve a batch; a session without peers is closed.
    pub fn fail_range_request(&mut self, peer: &PeerId)
        ensures
            final(self)@ == range_failed(old(self)@, *peer),
            old(self)@.wf() ==> final(self)@.wf(),
    {
        self.range_sync_state = match self.range_sync_state.take() {
            Some(mut state) => {
                state.fail_peer(peer);
                let alone = state.peer_set.is_empty();
                assert(alone == (state@.heads.dom() =~= Set::<PeerId>::empty()));
                if alone {
                    None
                } else {
                    Some(state)
                }
            },
            None => None,
        };
        assert(self@ =~= range_failed(old(self)@, *peer));
    }

    /// Takes in the status of a peer. A peer that is ahead of us extends the catch-up session, or
    /// opens one; then the next batch is due, unless one is under way.
    pub fn handle_status_response(&mut self, our_head_slot: u64, peer: PeerId, head_slot: u64) -> (res:
        Option<RangeRequest>)
        ensures
            final(self)@ == status_taken(old(self)@, our_head_slot, peer, head_slot),
            if head_slot <= our_head_slot {
                res is None
            } else {
                next_request_of(final(self)@.session, res)
            },
            old(self)@.wf() ==> final(self)@.wf(),
    {
        if head_slot <= our_head_slot {
            return None;
        }
        let gap: u64 = head_slot - our_head_slot;
        let start_slot: u64 = our_head_slot.saturating_add(1);
        let reach: u64 = if gap <= MAX_SYNC_RANGE {
            gap
        } else {
            MAX_SYNC_RANGE
        };
        let end_exclusive: u64 = start_slot.saturating_add(reach);
        self.range_sync_state = match self.range_sync_state.take() {
            Some(mut state) => {
                state.merge_peer(peer, head_slot, end_exclusive);
                Some(state)
            },
            None => Some(RangeSyncState::new(start_slot..end_exclusive, peer, head_slot)),
        };
        assert(self@ =~= status_taken(old(self)@, our_head_slot, peer, head_slot));
        self.next_range_request()
    }

    /// Takes in the blocks of a batch: those inside the range that was asked for are passed on,
    /// and the session goes on with the next batch.
    pub fn handle_blocks_by_range_response(
        &mut self,
        blocks: &Vec<FetchedBlock>,
        peer: PeerId,
        start_slot: u64,
        end_slot: u64,
    ) -> (res: RangeResponse)
        ensures
            final(self)@ == range_received(old(self)@, peer, blocks@, end_slot),
            range_response_of(old(self)@, final(self)@, blocks@, start_slot, end_slot, res),
            old(self)@.wf() ==> final(self)@.wf(),
    {
        let none: Vec<usize> = Vec::new();
        if blocks.len() == 0 {
            self.fail_range_request(&peer);
            return RangeResponse { forward: none, next: None };
        }
        if !self.blockchain_linked {
            self.range_sync_state = None;
            assert(self@ =~= range_received(old(self)@, peer, blocks@, end_slot));
            return RangeResponse { forward: none, next: None };
        }
        let forward = blocks_in_slots(blocks, start_slot, end_slot);
        self.range_sync_state = match self.range_sync_state.take() {
            Some(mut state) => {
                state.complete_batch(end_slot);
                if state.is_over() {
                    None
                } else {
                    Some(state)
                }
            },
            None => None,
        };
        assert(self@ =~= range_received(old(self)@, peer, blocks@, end_slot));
        let next = self.next_range_request();
        RangeResponse { forward, next }
    }

    /// Takes in the response to a request by root: the block that was asked for is passed on, any
    /// other is ignored; a response without blocks is a failure to serve.
    pub fn handle_blocks_by_root_response(
        &mut self,
        blocks: &Vec<FetchedBlock>,
        peer: PeerId,
        request_id: RequestId,
        requested_root: H256,
    ) -> (res: RootResponse)
        requires
            old(self)@.wf(),
        ensures
            final(self)@ == root_received(
                old(self)@,
                peer,
                request_id,
                blocks@,
                requested_root,
            ),
            root_response_of(old(self)@, blocks@, requested_root, res),
            final(self)@.wf(),
    {
        if blocks.len() == 0 {
            self.outbound_requests.insert(request_id, PendingRequestKind::Root(requested_root));
            let failure = self.handle_fetch_failure(&requested_root, peer);
            return RootResponse::Failed(failure);
        }
        let matching = blocks_with_root(blocks, &requested_root);
        if matching.len() > 0 {
            proof {
                lemma_places_found(blocks@, has_root(requested_root));
            }
            self.end_fetch(&requested_root);
        } else {
            proof {
                lemma_places_found(blocks@, has_root(requested_root));
            }
        }
        if self.blockchain_linked {
            RootResponse::Forward(matching)
        } else {
            RootResponse::Forward(Vec::new())
        }
    }

    /// Notes that a peer failed to serve a beacon block.
    pub fn fail_beacon_root(&mut self, root: &H256, peer: PeerId)
        ensures
            final(self)@ == beacon_root_failed(old(self)@, *root, peer),
            old(self)@.wf() ==> final(self)@.wf(),
    {
        let ghost before = self.beacon_pending_root_requests@;
        match self.beacon_pending_root_requests.remove(root) {
            Some(mut fetch) => {
                fetch.failed_peers.insert(peer);
                let ghost noted = fetch;
                self.beacon_pending_root_requests.insert(*root, fetch);
                assert(fetch_views(self.beacon_pending_root_requests@) =~= fetch_views(
                    before,
                ).insert(*root, noted@));
            },
            None => {
                assert(before.remove(*root) =~= before);
            },
        }
        assert(self@ =~= beacon_root_failed(old(self)@, *root, peer));
    }

    /// Takes in a response.
    fn handle_response(
        &mut self,
        peer: PeerId,
        request_id: RequestId,
        response: InboundResponse,
        our_head_slot: u64,
    ) -> (res: ReqRespAction)
        requires
            old(self)@.wf(),
        ensures
            final(self)@.wf(),
            response_outcome(
                old(self)@,
                peer,
                request_id,
                response,
                our_head_slot,
                final(self)@,
                res,
            ),
    {
        match response {
            InboundResponse::Status { head_slot } => ReqRespAction::RequestRange(
                self.handle_status_response(our_head_slot, peer, head_slot),
            ),
            InboundResponse::BeaconStatus => ReqRespAction::HandleBeaconStatus,
            InboundResponse::BeaconOther => ReqRespAction::HandleBeaconOther,
            InboundResponse::BeaconBlocks => {
                let asked = self.take_request(&request_id);
                match asked {
                    Some(PendingRequestKind::BeaconRange { start_slot, end_slot }) =>
                        ReqRespAction::HandleBeaconRange { start_slot, end_slot },
                    Some(PendingRequestKind::BeaconRoot(root)) => ReqRespAction::HandleBeaconRoot(
                        root,
                    ),
                    other => {
                        self.put_back(request_id, other);
                        assert(self@ =~= old(self)@);
                        ReqRespAction::Unexpected
                    },
                }
            },
            InboundResponse::Blocks(blocks) => {
                let asked = self.take_request(&request_id);
                match asked {
                    Some(PendingRequestKind::Range { start_slot, end_slot }) =>
                        ReqRespAction::RangeBlocks(
                        self.handle_blocks_by_range_response(&blocks, peer, start_slot, end_slot),
                    ),
                    Some(PendingRequestKind::Root(root)) => ReqRespAction::RootBlocks {
                        root,
                        response: self.handle_blocks_by_root_response(
                            &blocks,
                            peer,
                            request_id,
                            root,
                        ),
                    },
                    other => {
                        self.put_back(request_id, other);
                        assert(self@ =~= old(self)@);
                        ReqRespAction::Unexpected
                    },
                }
            },
            InboundResponse::Error => {
                let asked = self.take_request(&request_id);
                match asked {
                    Some(PendingRequestKind::Range { .. }) => {
                        self.fail_range_request(&peer);
                        ReqRespAction::Ignore
                    },
                    Some(PendingRequestKind::Root(root)) => {
                        self.put_back(request_id, Some(PendingRequestKind::Root(root)));
                        assert(self@ =~= old(self)@);
                        ReqRespAction::Ignore
                    },
                    Some(PendingRequestKind::BeaconRange { .. }) =>
                        ReqRespAction::RotateBeaconRange,
                    Some(PendingRequestKind::BeaconRoot(root)) => {
                        self.fail_beacon_root(&root, peer);
                        ReqRespAction::Ignore
                    },
                    None => {
                        assert(self@ =~= old(self)@);
                        ReqRespAction::Ignore
                    },
                }
            },
        }
    }

    /// Takes a request out of the account.
    fn take_request(&mut self, request_id: &RequestId) -> (res: Option<PendingRequestKind>)
        ensures
            final(self)@ == settled(old(self)@, *request_id),
            match res {
                Some(kind) => old(self)@.outbound.contains_pair(*request_id, kind),
                None => !old(self)@.outbound.contains_key(*request_id) && old(
                    self,
                )@.outbound.remove(*request_id) == old(self)@.outbound,
            },
    {
        let res = self.outbound_requests.remove(request_id);
        proof {
            if res is None {
                assert(old(self)@.outbound.remove(*request_id) =~= old(self)@.outbound);
            }
        }
        res
    }

    /// Puts a request back into the account.
    fn put_back(&mut self, request_id: RequestId, kind: Option<PendingRequestKind>)
        ensures
            final(self)@ == (match kind {
                Some(k) => P2PView {
                    outbound: old(self)@.outbound.insert(request_id, k),
                    ..old(self)@
                },
                None => old(self)@,
            }),
    {
        match kind {
            Some(k) => {
                self.outbound_requests.insert(request_id, k);
            },
            None => {},
        }
    }

    /// Sees to an event of the request-response protocol. `our_head_slot` is the slot of our own
    /// head.
    pub fn handle_req_resp_message(&mut self, event: ReqRespEvent, our_head_slot: u64) -> (res:
        ReqRespAction)
        requires
            old(self)@.wf(),
        ensures
            final(self)@.wf(),
            event_outcome(old(self)@, event, our_head_slot, final(self)@, res),
    {
        match event {
            ReqRespEvent::Request(request) => match request {
                InboundRequest::Status => ReqRespAction::AnswerStatus,
                InboundRequest::BlocksByRoot => ReqRespAction::AnswerBlocksByRoot,
                InboundRequest::BlocksByRange { start_slot, count } =>
                    ReqRespAction::AnswerBlocksByRange(
                    handle_blocks_by_range_request(start_slot, count),
                ),
                InboundRequest::Beacon => ReqRespAction::HandleBeaconRequest,
            },
            ReqRespEvent::Response { peer, request_id, response } => self.handle_response(
                peer,
                request_id,
                response,
                our_head_slot,
            ),
            ReqRespEvent::OutboundFailure { peer, request_id, unsupported_protocols } => {
                let asked = self.take_request(&request_id);
                match asked {
                    Some(PendingRequestKind::Root(root)) => {
                        let failure = self.handle_fetch_failure(&root, peer);
                        ReqRespAction::FetchFailed { root, failure }
                    },
                    Some(PendingRequestKind::Range { .. }) => {
                        self.fail_range_request(&peer);
                        ReqRespAction::Ignore
                    },
                    Some(PendingRequestKind::BeaconRange { .. }) =>
                        ReqRespAction::RotateBeaconRange,
                    Some(PendingRequestKind::BeaconRoot(root)) => {
                        self.fail_beacon_root(&root, peer);
                        ReqRespAction::Ignore
                    },
                    None => {
                        assert(self@ =~= old(self)@);
                        if unsupported_protocols {
                            ReqRespAction::RetryStatusVersion
                        } else {
                            ReqRespAction::Ignore
                        }
                    },
                }
            },
            ReqRespEvent::InboundFailure => ReqRespAction::Ignore,
            ReqRespEvent::ResponseSent => ReqRespAction::Ignore,
        }
    }
}

/// The places of the blocks inside a range of slots.
fn blocks_in_slots(blocks: &Vec<FetchedBlock>, start_slot: u64, end_slot: u64) -> (res: Vec<usize>)
    ensures
        res@ == places(blocks@, in_slots(start_slot, end_slot)),
{
    let mut res: Vec<usize> = Vec::new();
    let mut i: usize = 0;
    while i < blocks.len()
        invariant
            i <= blocks@.len(),
            res@ == places(blocks@.take(i as int), in_slots(start_slot, end_slot)),
        decreases blocks@.len() - i,
    {
        proof {
            assert(blocks@.take(i + 1).drop_last() =~= blocks@.take(i as int));
            assert(blocks@.take(i + 1).last() == blocks@[i as int]);
        }
        let slot: u64 = blocks[i].slot;
        if slot >= start_slot && slot <= end_slot {
            res.push(i);
        }
        i = i + 1;
    }
    assert(blocks@.take(i as int) =~= blocks@);
    res
}

/// The places of the blocks with the given root.
fn blocks_with_root(blocks: &Vec<FetchedBlock>, root: &H256) -> (res: Vec<usize>)
    ensures
        res@ == places(blocks@, has_root(*root)),
{
    let mut res: Vec<usize> = Vec::new();
    let mut i: usize = 0;
    while i < blocks.len()
        invariant
            i <= blocks@.len(),
            res@ == places(blocks@.take(i as int), has_root(*root)),
        decreases blocks@.len() - i,
    {
        proof {
            assert(blocks@.take(i + 1).drop_last() =~= blocks@.take(i as int));
            assert(blocks@.take(i + 1).last() == blocks@[i as int]);
        }
        if blocks[i].root.same(root) {
            res.push(i);
        }
        i = i + 1;
    }
    assert(blocks@.take(i as int) =~= blocks@);
    res
}

/// There are places exactly if some block is wanted.
proof fn lemma_places_found(blocks: Seq<FetchedBlock>, wanted: spec_fn(FetchedBlock) -> bool)
    ensures
        places(blocks, wanted).len() > 0 <==> exists|i: int|
            0 <= i < blocks.len() && wanted(#[trigger] blocks[i]),
    decreases blocks.len(),
{
    if blocks.len() > 0 {
        let less = blocks.drop_last();
        lemma_places_found(less, wanted);
        if exists|i: int| 0 <= i < less.len() && wanted(#[trigger] less[i]) {
            let i = choose|i: int| 0 <= i < less.len() && wanted(#[trigger] less[i]);
            assert(wanted(blocks[i]));
        }
        if exists|i: int| 0 <= i < blocks.len() && wanted(#[trigger] blocks[i]) {
            let i = choose|i: int| 0 <= i < blocks.len() && wanted(#[trigger] blocks[i]);
            if i < less.len() {
                assert(wanted(less[i]));
            }
        }
        if wanted(blocks.last()) {
            assert(wanted(blocks[blocks.len() - 1]));
        }
    }
}

} // verus!
