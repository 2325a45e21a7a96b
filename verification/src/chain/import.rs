//! Importing lean blocks: what to check, what to keep waiting and what to ask for.
use crate::chain::pending::{missing_ancestor, waiting_for, PendingView};
use crate::chain::server::{BlockChainServer, BlockInfo};
use crate::clock::{GOSSIP_DISPARITY_INTERVALS, INTERVALS_PER_SLOT};
use crate::primitives::H256;
use std::collections::VecDeque;
use vstd::prelude::*;

verus! {

/// Why a block was turned away before anything was read for it.
#[derive(Clone, Copy, Debug, PartialEq, Eq, Structural)]
pub enum Rejection {
    /// Its slot is finalized.
    Finalized,
    /// Its slot has not started yet, by more than the tolerated disparity.
    Future,
}

/// What to do next for a block.
#[derive(Debug)]
pub enum ImportStep {
    /// Nothing: the block is turned away.
    Reject(Rejection),
    /// Look up whether the store holds the state of the block's parent.
    CheckParentState,
    /// Run the block through the store.
    Import,
    /// Persist the block as pending; then look up the header of `missing`.
    StorePending {
        /// The ancestor that is missing as far as the table knows.
        missing: H256,
    },
    /// Look up the header of `missing`.
    ReadHeader {
        /// The root to look up.
        missing: H256,
    },
    /// Look up whether the store holds the state of `parent`.
    CheckAncestorState {
        /// A stored block.
        missing: H256,
        /// The parent of that block.
        parent: H256,
    },
    /// Load the stored block and queue it.
    EnqueueStored {
        /// The block to load.
        root: H256,
    },
    /// Ask the network for a block.
    Request {
        /// The block to ask for.
        root: H256,
    },
    /// Load the blocks and queue them; first, if so marked, recover the attestation aggregates
    /// that the imported block carries.
    Imported {
        /// Whether to recover attestation aggregates.
        reaggregate: bool,
        /// The blocks that waited for the imported one.
        children: Vec<H256>,
    },
    /// Nothing more for this block.
    Done,
}

/// The first interval of `slot`, as far as a machine word can count.
pub open spec fn first_interval(slot: int) -> int {
    if slot * INTERVALS_PER_SLOT <= u64::MAX {
        slot * INTERVALS_PER_SLOT
    } else {
        u64::MAX as int
    }
}

/// Why a block of `slot` is turned away at `store_time` intervals after genesis, if it is.
pub open spec fn rejection(slot: int, finalized_slot: int, store_time: int) -> Option<Rejection> {
    if slot <= finalized_slot {
        Some(Rejection::Finalized)
    } else if first_interval(slot) > store_time + GOSSIP_DISPARITY_INTERVALS {
        Some(Rejection::Future)
    } else {
        None
    }
}

/// What follows a look-up of the header of `missing`, which names `parent` if there is one.
pub open spec fn after_header(missing: H256, parent: Option<H256>, linked: bool) -> ImportStep {
    match parent {
        Some(p) => ImportStep::CheckAncestorState { missing, parent: p },
        None => if linked {
            ImportStep::Request { root: missing }
        } else {
            ImportStep::Done
        },
    }
}

/// What follows a look-up of the state of `parent`, the parent of the stored block `missing`, and
/// what is pending then.
pub open spec fn after_ancestor_state(
    table: PendingView,
    missing: H256,
    parent: H256,
    known: bool,
) -> (PendingView, ImportStep) {
    if known {
        (table, ImportStep::EnqueueStored { root: missing })
    } else {
        (table.linked(missing, parent, parent), ImportStep::ReadHeader { missing: parent })
    }
}

/// What follows when a block is taken up, and what is pending then.
pub open spec fn taken_up(
    table: PendingView,
    block: BlockInfo,
    finalized_slot: int,
    store_time: int,
) -> (PendingView, ImportStep) {
    match rejection(block.slot as int, finalized_slot, store_time) {
        Some(why) => (table.discarded(block.root), ImportStep::Reject(why)),
        None => (table, ImportStep::CheckParentState),
    }
}

/// What follows a look-up of the state of the block's parent, and what is pending then.
pub open spec fn after_parent_state(table: PendingView, block: BlockInfo, known: bool) -> (
    PendingView,
    ImportStep,
) {
    if known {
        (table, ImportStep::Import)
    } else {
        (
            table.pended(block.root, block.parent_root),
            ImportStep::StorePending {
                missing: missing_ancestor(table.ancestors, block.parent_root),
            },
        )
    }
}

/// Whether `step` follows when the store has taken or refused a block, and `after` is pending
/// then.
pub open spec fn import_concluded(
    table: PendingView,
    block: BlockInfo,
    accepted: bool,
    duties_allowed: bool,
    after: PendingView,
    step: ImportStep,
) -> bool {
    if accepted {
        &&& step matches ImportStep::Imported { reaggregate, children } && reaggregate
            == duties_allowed && children@.no_duplicates() && children@.to_set() == waiting_for(
            table.children,
            block.root,
        )
        &&& after == table.released(block.root)
    } else {
        step == ImportStep::Done && after == table
    }
}

impl BlockChainServer {
    /// Takes up a block. A block that is finalized or too far ahead is turned away, and with it
    /// everything that waits for it; of any other block the parent's state is looked up.
    pub fn process_or_pend_block(
        &mut self,
        block: &BlockInfo,
        finalized_slot: u64,
        store_time: u64,
    ) -> (res: ImportStep)
        requires
            store_time + GOSSIP_DISPARITY_INTERVALS <= u64::MAX,
        ensures
            final(self).differs_in_pending_only(old(self)),
            (final(self).pending@, res) == taken_up(
                old(self).pending@,
                *block,
                finalized_slot as int,
                store_time as int,
            ),
    {
        if block.slot <= finalized_slot {
            self.pending.discard_subtree(&block.root);
            return ImportStep::Reject(Rejection::Finalized);
        }
        let block_start_interval: u64 = match block.slot.checked_mul(INTERVALS_PER_SLOT) {
            Some(n) => n,
            None => u64::MAX,
        };
        if block_start_interval > store_time + GOSSIP_DISPARITY_INTERVALS {
            self.pending.discard_subtree(&block.root);
            return ImportStep::Reject(Rejection::Future);
        }
        ImportStep::CheckParentState
    }

    /// Goes on once it is known whether the store holds the state of the block's parent.
    pub fn on_parent_state(&mut self, block: &BlockInfo, known: bool) -> (res: ImportStep)
        ensures
            final(self).differs_in_pending_only(old(self)),
            (final(self).pending@, res) == after_parent_state(old(self).pending@, *block, known),
    {
        if known {
            return ImportStep::Import;
        }
        let missing = self.pending.pend(block.root, block.parent_root);
        ImportStep::StorePending { missing }
    }

    /// Goes on once the store was asked for the header of `missing`: with the state of the
    /// parent that the header names, or, where there is no header, with a request to the network.
    pub fn on_ancestor_header(&self, missing: H256, parent: Option<H256>) -> (res: ImportStep)
        ensures
            res == after_header(missing, parent, self.p2p_linked),
    {
        match parent {
            Some(p) => ImportStep::CheckAncestorState { missing, parent: p },
            None => self.request_missing_block(missing),
        }
    }

    /// Asks the network for a block, where the network side is connected.
    pub fn request_missing_block(&self, root: H256) -> (res: ImportStep)
        ensures
            res == after_header(root, None, self.p2p_linked),
    {
        if self.p2p_linked {
            ImportStep::Request { root }
        } else {
            ImportStep::Done
        }
    }

    /// Goes on once it is known whether the store holds the state of a stored ancestor's parent.
    pub fn on_ancestor_state(&mut self, missing: H256, parent: H256, known: bool) -> (res:
        ImportStep)
        ensures
            final(self).differs_in_pending_only(old(self)),
            (final(self).pending@, res) == after_ancestor_state(
                old(self).pending@,
                missing,
                parent,
                known,
            ),
    {
        if known {
            return ImportStep::EnqueueStored { root: missing };
        }
        self.pending.link(missing, parent, parent);
        ImportStep::ReadHeader { missing: parent }
    }

    /// Goes on once the store has taken or refused the block: a block that was taken releases
    /// the blocks that waited for it.
    pub fn on_imported(&mut self, block: &BlockInfo, accepted: bool, duties_allowed: bool) -> (res:
        ImportStep)
        ensures
            final(self).differs_in_pending_only(old(self)),
            import_concluded(
                old(self).pending@,
                *block,
                accepted,
                duties_allowed,
                final(self).pending@,
                res,
            ),
    {
        if !accepted {
            return ImportStep::Done;
        }
        let children = self.pending.take_children(&block.root);
        ImportStep::Imported { reaggregate: duties_allowed, children }
    }
}

/// A block that arrived, and the blocks whose turn comes with it, in the order of their turns.
/// Each block is kept with what it was loaded as.
pub struct BlockCascade<B> {
    queue: VecDeque<(BlockInfo, B)>,
}

/// What a cascade does next.
#[derive(Debug)]
pub enum CascadeStep<B> {
    /// Take up the block.
    Process(BlockInfo, B),
    /// Every block had its turn: prune old states and blocks.
    Prune,
}

/// What a cascade with the given queue does next, and the queue then.
pub open spec fn turn_of<B>(queue: Seq<(BlockInfo, B)>) -> (CascadeStep<B>, Seq<(BlockInfo, B)>) {
    if queue.len() == 0 {
        (CascadeStep::Prune, queue)
    } else {
        (CascadeStep::Process(queue[0].0, queue[0].1), queue.skip(1))
    }
}

impl<B> View for BlockCascade<B> {
    type V = Seq<(BlockInfo, B)>;

    closed spec fn view(&self) -> Seq<(BlockInfo, B)> {
        self.queue@
    }
}

impl<B> BlockCascade<B> {
    /// The cascade of a block that arrived.
    pub fn new(info: BlockInfo, block: B) -> (res: BlockCascade<B>)
        ensures
            res@ == seq![(info, block)],
    {
        let mut queue: VecDeque<(BlockInfo, B)> = VecDeque::new();
        queue.push_back((info, block));
        assert(queue@ =~= seq![(info, block)]);
        BlockCascade { queue }
    }

    /// Queues a block behind those that are already queued.
    pub fn enqueue(&mut self, info: BlockInfo, block: B)
        ensures
            final(self)@ == old(self)@.push((info, block)),
    {
        self.queue.push_back((info, block));
    }

    /// The block whose turn it is; once there is none, the order to prune.
    pub fn next(&mut self) -> (res: CascadeStep<B>)
        ensures
            (res, final(self)@) == turn_of(old(self)@),
    {
        match self.queue.pop_front() {
            Some((info, block)) => {
                assert(self.queue@ =~= old(self)@.skip(1));
                CascadeStep::Process(info, block)
            },
            None => CascadeStep::Prune,
        }
    }
}

/// A block is admitted up to one interval before its slot begins, and not earlier: a margin of a
/// whole slot would let blocks of the next slot in ahead of their time.
pub proof fn law_blocks_are_admitted_one_interval_early(
    slot: u64,
    finalized_slot: u64,
    store_time: u64,
)
    requires
        slot > finalized_slot,
        slot * INTERVALS_PER_SLOT <= u64::MAX,
    ensures
        rejection(slot as int, finalized_slot as int, store_time as int) is None
            <==> slot * INTERVALS_PER_SLOT <= store_time + 1,
{
}

/// How the look-up of a missing ancestor ends.
pub enum AncestryEnd {
    /// With a root that the store has no header of, to be asked for.
    Missing(H256),
    /// With a stored block whose parent's state is known, to be queued.
    Ready(H256),
    /// Not within the given number of look-ups.
    Unfinished,
}

/// The parent that the header of `root` names, if there is a header.
pub open spec fn header_parent(headers: Map<H256, H256>, root: H256) -> Option<H256> {
    if headers.contains_key(root) {
        Some(headers[root])
    } else {
        None
    }
}

/// Where the look-ups from the header of `missing` on lead, with at most `steps` further headers,
/// in a store that holds `headers` (each root with its parent) and the states of `states`; and
/// what is pending then.
pub open spec fn look_up(
    table: PendingView,
    headers: Map<H256, H256>,
    states: Set<H256>,
    missing: H256,
    steps: nat,
) -> (PendingView, AncestryEnd)
    decreases steps,
{
    match after_header(missing, header_parent(headers, missing), true) {
        ImportStep::CheckAncestorState { missing: stored, parent } => {
            let (pending, step) = after_ancestor_state(
                table,
                stored,
                parent,
                states.contains(parent),
            );
            match step {
                ImportStep::ReadHeader { missing: next } => if steps == 0 {
                    (pending, AncestryEnd::Unfinished)
                } else {
                    look_up(pending, headers, states, next, (steps - 1) as nat)
                },
                ImportStep::EnqueueStored { root } => (pending, AncestryEnd::Ready(root)),
                _ => (pending, AncestryEnd::Unfinished),
            }
        },
        ImportStep::Request { root } => (table, AncestryEnd::Missing(root)),
        _ => (table, AncestryEnd::Unfinished),
    }
}

/// A look-up ends with a root that the store lacks, or with a stored block that can be imported:
/// never with a block that would have to wait again.
pub proof fn law_look_up_ends_at_a_gap_or_an_importable_block(
    table: PendingView,
    headers: Map<H256, H256>,
    states: Set<H256>,
    missing: H256,
    steps: nat,
)
    ensures
        match look_up(table, headers, states, missing, steps).1 {
            AncestryEnd::Missing(root) => !headers.contains_key(root),
            AncestryEnd::Ready(root) => headers.contains_key(root) && states.contains(
                headers[root],
            ),
            AncestryEnd::Unfinished => true,
        },
    decreases steps,
{
    if headers.contains_key(missing) && !states.contains(headers[missing]) && steps > 0 {
        let parent = headers[missing];
        law_look_up_ends_at_a_gap_or_an_importable_block(
            table.linked(missing, parent, parent),
            headers,
            states,
            parent,
            (steps - 1) as nat,
        );
    }
}

/// A look-up along headers whose rank falls from block to parent ends within as many look-ups
/// as the rank of its start.
pub proof fn law_look_up_ends(
    table: PendingView,
    headers: Map<H256, H256>,
    states: Set<H256>,
    missing: H256,
    rank: spec_fn(H256) -> nat,
    steps: nat,
)
    requires
        forall|k: H256| #[trigger] headers.contains_key(k) ==> rank(headers[k]) < rank(k),
        steps >= rank(missing),
    ensures
        !(look_up(table, headers, states, missing, steps).1 is Unfinished),
    decreases steps,
{
    if headers.contains_key(missing) && !states.contains(headers[missing]) && steps > 0 {
        let parent = headers[missing];
        law_look_up_ends(
            table.linked(missing, parent, parent),
            headers,
            states,
            parent,
            rank,
            (steps - 1) as nat,
        );
    }
}

/// A look-up forgets nothing that waits.
proof fn lemma_look_up_keeps_waiting(
    table: PendingView,
    headers: Map<H256, H256>,
    states: Set<H256>,
    missing: H256,
    steps: nat,
    parent: H256,
    block: H256,
)
    requires
        waiting_for(table.children, parent).contains(block),
    ensures
        waiting_for(
            look_up(table, headers, states, missing, steps).0.children,
            parent,
        ).contains(block),
    decreases steps,
{
    if headers.contains_key(missing) && !states.contains(headers[missing]) && steps > 0 {
        let above = headers[missing];
        lemma_look_up_keeps_waiting(
            table.linked(missing, above, above),
            headers,
            states,
            above,
            (steps - 1) as nat,
            parent,
            block,
        );
    }
}

/// The block `n` headers above `root`.
pub open spec fn header_above(headers: Map<H256, H256>, root: H256, n: nat) -> H256
    decreases n,
{
    if n == 0 {
        root
    } else {
        header_above(headers, headers[root], (n - 1) as nat)
    }
}

/// A look-up that ends records every stored block on its way as waiting for its own parent, so
/// that the arrival of the missing ancestor releases them one after the other.
pub proof fn law_look_up_records_the_way(
    table: PendingView,
    headers: Map<H256, H256>,
    states: Set<H256>,
    missing: H256,
    steps: nat,
) -> (n: nat)
    requires
        !(look_up(table, headers, states, missing, steps).1 is Unfinished),
    ensures
        match look_up(table, headers, states, missing, steps).1 {
            AncestryEnd::Missing(root) => root == header_above(headers, missing, n),
            AncestryEnd::Ready(root) => root == header_above(headers, missing, n),
            AncestryEnd::Unfinished => false,
        },
        forall|i: nat|
            i < n ==> {
                let block = #[trigger] header_above(headers, missing, i);
                headers.contains_key(block) && !states.contains(headers[block]) && waiting_for(
                    look_up(table, headers, states, missing, steps).0.children,
                    headers[block],
                ).contains(block)
            },
    decreases steps,
{
    if headers.contains_key(missing) && !states.contains(headers[missing]) {
        let parent = headers[missing];
        let linked = table.linked(missing, parent, parent);
        let n = law_look_up_records_the_way(
            linked,
            headers,
            states,
            parent,
            (steps - 1) as nat,
        );
        lemma_look_up_keeps_waiting(
            linked,
            headers,
            states,
            parent,
            (steps - 1) as nat,
            parent,
            missing,
        );
        assert forall|i: nat| i < n + 1 implies {
            let block = #[trigger] header_above(headers, missing, i);
            headers.contains_key(block) && !states.contains(headers[block]) && waiting_for(
                look_up(table, headers, states, missing, steps).0.children,
                headers[block],
            ).contains(block)
        } by {
            if i > 0 {
                assert(header_above(headers, missing, i) == header_above(
                    headers,
                    parent,
                    (i - 1) as nat,
                ));
            }
        }
        n + 1
    } else {
        0
    }
}

} // verus!
