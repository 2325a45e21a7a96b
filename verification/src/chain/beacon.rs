//! Following the Beacon Chain: the tick, the fork-choice head, and block import.
use crate::chain::server::{BlockChainServer, BlockSource};
use crate::primitives::{Key, H256};
use std::collections::VecDeque;
use vstd::prelude::*;

verus! {

/// Slots in an epoch.
pub const SLOTS_PER_EPOCH: u64 = 32;

/// The slot that the wall clock is in.
pub open spec fn beacon_slot_at(now_ms: int, genesis_time: int, seconds_per_slot: int) -> int {
    let now = now_ms / 1000;
    if now < genesis_time {
        0
    } else {
        (now - genesis_time) / seconds_per_slot
    }
}

/// The slot that the wall clock is in, the first one before genesis.
pub fn beacon_wall_clock_slot(now_ms: u64, genesis_time: u64, seconds_per_slot: u64) -> (res: u64)
    requires
        seconds_per_slot > 0,
    ensures
        res == beacon_slot_at(now_ms as int, genesis_time as int, seconds_per_slot as int),
{
    let since: u64 = (now_ms / 1000).saturating_sub(genesis_time);
    assert((now_ms as int / 1000) < genesis_time ==> 0int / seconds_per_slot as int == 0) by {
        vstd::arithmetic::div_mod::lemma_div_basics(seconds_per_slot as int);
    }
    since / seconds_per_slot
}

/// Whether the store's clock has come to a later slot.
pub open spec fn slot_has_turned(previous_slot: int, current_slot: int) -> bool {
    current_slot > previous_slot
}

/// Whether a tick that moved the store's clock from `previous_slot` to `current_slot` calls for
/// the head: votes and boosts weigh differently in a new slot, even with no new block.
pub fn tick_moves_head(previous_slot: u64, current_slot: u64) -> (res: bool)
    ensures
        res == slot_has_turned(previous_slot as int, current_slot as int),
{
    current_slot > previous_slot
}

/// What a beacon tick reports.
#[derive(Clone, Copy, Debug, PartialEq, Eq, Structural)]
pub struct BeaconReport {
    /// The slot that the wall clock is in.
    pub wall_clock_slot: u64,
    /// The first slot of the finalized epoch: held blocks below it are dropped.
    pub finalized_slot: u64,
    /// The first slot of the justified epoch.
    pub justified_slot: u64,
    /// The slot of the fork-choice head.
    pub head_slot: u64,
    /// The highest slot that a block was imported for.
    pub max_seen_slot: u64,
}

/// What a beacon tick reports.
pub open spec fn report_of(
    wall_clock_slot: u64,
    finalized_epoch: int,
    justified_epoch: int,
    highest_imported_slot: u64,
    head_slot: Option<u64>,
) -> BeaconReport {
    BeaconReport {
        wall_clock_slot,
        finalized_slot: (finalized_epoch * SLOTS_PER_EPOCH) as u64,
        justified_slot: (justified_epoch * SLOTS_PER_EPOCH) as u64,
        head_slot: match head_slot {
            Some(slot) => slot,
            None => highest_imported_slot,
        },
        max_seen_slot: highest_imported_slot,
    }
}

/// What a beacon tick reports. Until a head has been computed, the highest imported slot stands
/// in for it.
pub fn beacon_report(
    wall_clock_slot: u64,
    finalized_epoch: u64,
    justified_epoch: u64,
    highest_imported_slot: u64,
    head_slot: Option<u64>,
) -> (res: BeaconReport)
    requires
        finalized_epoch * SLOTS_PER_EPOCH <= u64::MAX,
        justified_epoch * SLOTS_PER_EPOCH <= u64::MAX,
    ensures
        res == report_of(
            wall_clock_slot,
            finalized_epoch as int,
            justified_epoch as int,
            highest_imported_slot,
            head_slot,
        ),
{
    let head: u64 = match head_slot {
        Some(slot) => slot,
        None => highest_imported_slot,
    };
    BeaconReport {
        wall_clock_slot,
        finalized_slot: finalized_epoch * SLOTS_PER_EPOCH,
        justified_slot: justified_epoch * SLOTS_PER_EPOCH,
        head_slot: head,
        max_seen_slot: highest_imported_slot,
    }
}

/// A recomputed head.
#[derive(Clone, Copy, Debug)]
pub struct HeadUpdate {
    /// The slot of the head.
    pub slot: u64,
    /// The root of the head.
    pub root: H256,
    /// The head before, if there was one.
    pub previous: Option<(u64, H256)>,
    /// How many blocks the old head has that the new one has not, if it left the old branch.
    pub reorg_depth: Option<u64>,
}

/// What a recomputed head amounts to.
#[derive(Clone, Copy, Debug)]
pub enum HeadChange {
    /// The head is the same block.
    Unmoved,
    /// The head moved along its branch, or is the first.
    Moved,
    /// The head left its branch.
    Reorg {
        /// How many blocks were left behind.
        depth: u64,
        /// The slot of the head before.
        previous_slot: u64,
        /// The root of the head before.
        previous_root: H256,
    },
}

/// What a recomputed head amounts to.
pub open spec fn change_of(update: HeadUpdate) -> HeadChange {
    match update.previous {
        None => HeadChange::Moved,
        Some((previous_slot, previous_root)) => if previous_root == update.root {
            HeadChange::Unmoved
        } else {
            match update.reorg_depth {
                None => HeadChange::Moved,
                Some(depth) => HeadChange::Reorg { depth, previous_slot, previous_root },
            }
        },
    }
}

/// What a recomputed head amounts to.
pub fn head_change(update: &HeadUpdate) -> (res: HeadChange)
    requires
        update.reorg_depth is Some ==> update.previous is Some,
    ensures
        res == change_of(*update),
{
    match update.previous {
        None => HeadChange::Moved,
        Some((previous_slot, previous_root)) => {
            if previous_root.same(&update.root) {
                return HeadChange::Unmoved;
            }
            match update.reorg_depth {
                None => HeadChange::Moved,
                Some(depth) => HeadChange::Reorg { depth, previous_slot, previous_root },
            }
        },
    }
}

/// A beacon block as the import logic reads it.
#[derive(Clone, Copy, Debug)]
pub struct BeaconBlockInfo {
    /// The block's slot.
    pub slot: u64,
    /// The block's root.
    pub root: H256,
    /// The root of the block's parent.
    pub parent_root: H256,
}

/// What the buffer of held blocks did with a block.
#[derive(Clone, Copy, Debug)]
pub enum Held {
    /// It is full, and the block is dropped.
    Full,
    /// It holds the block behind the deepest ancestor that is missing.
    Buffered(H256),
}

/// What to do next for a beacon block.
#[derive(Clone, Copy, Debug)]
pub enum BeaconStep {
    /// Nothing: the block is already imported.
    Known,
    /// Hand the block to the buffer of held blocks.
    Hold,
    /// Count a dropped block.
    CountDropped,
    /// Ask the network for a block.
    Request {
        /// The block to ask for.
        root: H256,
    },
    /// Run the block through fork choice.
    Import,
    /// Count the block as fetched, if so marked, and queue the blocks held for it.
    Imported {
        /// Whether to count the block as fetched.
        count_fetched: bool,
        /// The block whose held children are to be queued.
        release: H256,
    },
    /// Nothing more for this block.
    Done,
}

/// What follows when a beacon block is taken up.
pub open spec fn beacon_taken_up(block_known: bool, parent_known: bool) -> BeaconStep {
    if block_known {
        BeaconStep::Known
    } else if !parent_known {
        BeaconStep::Hold
    } else {
        BeaconStep::Import
    }
}

/// What follows once the buffer has taken or dropped a block.
pub open spec fn after_holding(held: Held, linked: bool) -> BeaconStep {
    match held {
        Held::Full => BeaconStep::CountDropped,
        Held::Buffered(missing) => if linked {
            BeaconStep::Request { root: missing }
        } else {
            BeaconStep::Done
        },
    }
}

/// What follows once fork choice has taken or refused a block.
pub open spec fn beacon_concluded(
    block: BeaconBlockInfo,
    source: BlockSource,
    accepted: bool,
) -> BeaconStep {
    if accepted {
        BeaconStep::Imported { count_fetched: source == BlockSource::Sync, release: block.root }
    } else {
        BeaconStep::Done
    }
}

impl BlockChainServer {
    /// Takes up a beacon block: nothing is done for one that is already imported, one whose
    /// parent is unknown is held, any other is imported.
    pub fn process_or_hold_beacon_block(&self, block_known: bool, parent_known: bool) -> (res:
        BeaconStep)
        ensures
            res == beacon_taken_up(block_known, parent_known),
    {
        if block_known {
            BeaconStep::Known
        } else if !parent_known {
            BeaconStep::Hold
        } else {
            BeaconStep::Import
        }
    }

    /// Goes on once the buffer has taken or dropped a block: what a held block waits for is
    /// asked for, always, where the network side is connected.
    pub fn on_beacon_held(&self, held: Held) -> (res: BeaconStep)
        ensures
            res == after_holding(held, self.p2p_linked),
    {
        match held {
            Held::Full => BeaconStep::CountDropped,
            Held::Buffered(missing) => self.request_missing_beacon_block(missing),
        }
    }

    /// Asks the network for a beacon block, where the network side is connected.
    pub fn request_missing_beacon_block(&self, root: H256) -> (res: BeaconStep)
        ensures
            res == after_holding(Held::Buffered(root), self.p2p_linked),
    {
        if self.p2p_linked {
            BeaconStep::Request { root }
        } else {
            BeaconStep::Done
        }
    }

    /// Goes on once fork choice has taken or refused a block. Only fetched blocks are counted,
    /// so that the count tells a closing gap from a node that follows gossip.
    pub fn on_beacon_imported(
        &self,
        block: &BeaconBlockInfo,
        source: BlockSource,
        accepted: bool,
    ) -> (res: BeaconStep)
        ensures
            res == beacon_concluded(*block, source, accepted),
    {
        if accepted {
            BeaconStep::Imported {
                count_fetched: source == BlockSource::Sync,
                release: block.root,
            }
        } else {
            BeaconStep::Done
        }
    }

    /// Whether the store's clock lags behind the wall clock in the midst of a cascade, so that
    /// the tick's work must not wait for the tick.
    pub fn clock_lags(&self, now_ms: u64, store_slot: u64, seconds_per_slot: u64) -> (res: bool)
        requires
            seconds_per_slot > 0,
        ensures
            res == slot_has_turned(
                store_slot as int,
                beacon_slot_at(
                    now_ms as int,
                    self.config.genesis_time as int,
                    seconds_per_slot as int,
                ),
            ),
    {
        beacon_wall_clock_slot(now_ms, self.config.genesis_time, seconds_per_slot) > store_slot
    }

    /// Whether the end of a cascade in `current_slot` calls for the head: once per slot at most.
    pub fn cascade_moves_head(&mut self, current_slot: u64) -> (res: bool)
        ensures
            res == head_is_due(old(self).beacon_head_updated_for_slot, current_slot),
            final(self).beacon_head_updated_for_slot == Some(current_slot),
            final(self).config == old(self).config,
            final(self).p2p_linked == old(self).p2p_linked,
            final(self).pending == old(self).pending,
            final(self).current_aggregation == old(self).current_aggregation,
    {
        let due = match self.beacon_head_updated_for_slot {
            Some(slot) => slot != current_slot,
            None => true,
        };
        self.beacon_head_updated_for_slot = Some(current_slot);
        due
    }
}

/// Whether the head is due in `slot`, when it was last recomputed for the slot `updated_for`.
pub open spec fn head_is_due(updated_for: Option<u64>, slot: u64) -> bool {
    updated_for != Some(slot)
}

/// How often the head is recomputed for cascades that end in the given slots, one after the
/// other.
pub open spec fn head_recomputations(updated_for: Option<u64>, slots: Seq<u64>) -> nat
    decreases slots.len(),
{
    if slots.len() == 0 {
        0
    } else if head_is_due(updated_for, slots[0]) {
        1 + head_recomputations(Some(slots[0]), slots.skip(1))
    } else {
        head_recomputations(Some(slots[0]), slots.skip(1))
    }
}

/// However many cascades end in one slot, the head is recomputed for them once at most.
pub proof fn law_one_head_per_slot(updated_for: Option<u64>, slot: u64, slots: Seq<u64>)
    requires
        forall|i: int| 0 <= i < slots.len() ==> slots[i] == slot,
    ensures
        head_recomputations(updated_for, slots) <= 1,
        updated_for == Some(slot) ==> head_recomputations(updated_for, slots) == 0,
    decreases slots.len(),
{
    if slots.len() > 0 {
        law_one_head_per_slot(Some(slot), slot, slots.skip(1));
    }
}

/// A beacon block that arrived, and the held blocks whose turn comes with it. All of them count
/// as coming from where the first came from. Each block is kept with what it was received as.
pub struct BeaconCascade<B> {
    queue: VecDeque<(BeaconBlockInfo, B)>,
    source: BlockSource,
}

/// What a beacon cascade does next.
#[derive(Debug)]
pub enum BeaconCascadeStep<B> {
    /// Take up the block, and then see whether the clock lags.
    Process(BeaconBlockInfo, B),
    /// Every block had its turn: report what is held, and see whether the head is due.
    Finish,
}

/// What a beacon cascade with the given queue does next, and the queue then.
pub open spec fn beacon_turn_of<B>(queue: Seq<(BeaconBlockInfo, B)>) -> (
    BeaconCascadeStep<B>,
    Seq<(BeaconBlockInfo, B)>,
) {
    if queue.len() == 0 {
        (BeaconCascadeStep::Finish, queue)
    } else {
        (BeaconCascadeStep::Process(queue[0].0, queue[0].1), queue.skip(1))
    }
}

impl<B> View for BeaconCascade<B> {
    type V = Seq<(BeaconBlockInfo, B)>;

    closed spec fn view(&self) -> Seq<(BeaconBlockInfo, B)> {
        self.queue@
    }
}

impl<B> BeaconCascade<B> {
    /// Where the cascade's first block came from.
    pub closed spec fn origin(&self) -> BlockSource {
        self.source
    }

    /// The cascade of a block that arrived from `source`.
    pub fn new(info: BeaconBlockInfo, block: B, source: BlockSource) -> (res: BeaconCascade<B>)
        ensures
            res@ == seq![(info, block)],
            res.origin() == source,
    {
        let mut queue: VecDeque<(BeaconBlockInfo, B)> = VecDeque::new();
        queue.push_back((info, block));
        assert(queue@ =~= seq![(info, block)]);
        BeaconCascade { queue, source }
    }

    /// Where the cascade's first block came from.
    pub fn source(&self) -> (res: BlockSource)
        ensures
            res == self.origin(),
    {
        self.source
    }

    /// Queues a released block behind those that are already queued.
    pub fn enqueue(&mut self, info: BeaconBlockInfo, block: B)
        ensures
            final(self)@ == old(self)@.push((info, block)),
            final(self).origin() == old(self).origin(),
    {
        self.queue.push_back((info, block));
    }

    /// The block whose turn it is; once there is none, the order to finish.
    pub fn next(&mut self) -> (res: BeaconCascadeStep<B>)
        ensures
            final(self).origin() == old(self).origin(),
            (res, final(self)@) == beacon_turn_of(old(self)@),
    {
        match self.queue.pop_front() {
            Some((info, block)) => {
                assert(self.queue@ =~= old(self)@.skip(1));
                BeaconCascadeStep::Process(info, block)
            },
            None => BeaconCascadeStep::Finish,
        }
    }
}

} // verus!
