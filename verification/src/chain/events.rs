//! What the chain server announces, and what it passes on to the network.
use crate::chain::server::{BlockChainServer, BlockInfo, BlockSource, Chain};
use crate::primitives::H256;
use vstd::prelude::*;

verus! {

/// Something that subscribers of the chain hear of. `D` is what an attestation says.
#[derive(Debug)]
pub enum ChainEvent<D> {
    /// A block was imported that was not known before.
    Block {
        /// The block's slot.
        slot: u64,
        /// The block's root.
        block: H256,
    },
    /// A block was seen on gossip, before import.
    BlockGossip {
        /// The block's slot.
        slot: u64,
        /// The block's root.
        block: H256,
    },
    /// The store accepted an attestation.
    Attestation {
        /// The validator that attested.
        validator_id: u64,
        /// What it attested.
        data: D,
    },
    /// The store accepted an aggregate.
    Aggregate {
        /// The validators that signed it.
        participants: Vec<u64>,
        /// What they attested.
        data: D,
    },
}

/// What to do with a block that arrived.
#[derive(Debug)]
pub struct NewBlockPlan<D> {
    /// What to announce, and to count as an arrival.
    pub announce: Option<ChainEvent<D>>,
    /// Whether to import the block.
    pub import: bool,
}

/// What to do with an aggregate that our worker produced.
#[derive(Debug)]
pub struct ProducedPlan<D> {
    /// What to announce.
    pub announce: ChainEvent<D>,
    /// Whether to publish the aggregate.
    pub publish: bool,
}

/// `value`, if `condition` holds.
pub open spec fn given_if<T>(condition: bool, value: T) -> Option<T> {
    if condition {
        Some(value)
    } else {
        None
    }
}

/// What to do with a block that arrived.
pub open spec fn new_block_plan<D>(
    chain: Chain,
    block: BlockInfo,
    source: BlockSource,
) -> NewBlockPlan<D> {
    NewBlockPlan {
        announce: if source == BlockSource::Gossip {
            Some(ChainEvent::BlockGossip { slot: block.slot, block: block.root })
        } else {
            None
        },
        import: chain == Chain::Lean,
    }
}

/// What to announce of a block that the store accepted.
pub open spec fn import_event_of<D>(block: BlockInfo, was_known: bool) -> Option<ChainEvent<D>> {
    if was_known {
        None
    } else {
        Some(ChainEvent::Block { slot: block.slot, block: block.root })
    }
}

/// How many of the `recovered` aggregates of an imported block are published.
pub open spec fn published_of(recovered: usize, is_aggregator: bool, linked: bool) -> usize {
    if is_aggregator && linked {
        recovered
    } else {
        0
    }
}

/// One thing to announce once a block was imported.
#[derive(Debug)]
pub enum Announcement<D> {
    /// An event.
    Event(ChainEvent<D>),
    /// How the head and the checkpoints have moved.
    Moves,
}

/// What is announced once the store has accepted or refused a block, in order.
pub open spec fn announced_on_import<D>(block: BlockInfo, accepted: bool, was_known: bool) -> Seq<
    Announcement<D>,
> {
    if !accepted {
        Seq::empty()
    } else if was_known {
        seq![Announcement::Moves]
    } else {
        seq![
            Announcement::Event(ChainEvent::Block { slot: block.slot, block: block.root }),
            Announcement::Moves,
        ]
    }
}

/// A block that is announced comes before the moves that it causes, and a block that was refused
/// or already known is not announced.
pub proof fn law_a_block_is_announced_before_its_moves<D>(
    block: BlockInfo,
    accepted: bool,
    was_known: bool,
    i: int,
    j: int,
)
    requires
        0 <= i < announced_on_import::<D>(block, accepted, was_known).len(),
        0 <= j < announced_on_import::<D>(block, accepted, was_known).len(),
        announced_on_import::<D>(block, accepted, was_known)[i] is Event,
        announced_on_import::<D>(block, accepted, was_known)[j] is Moves,
    ensures
        i < j,
        accepted && !was_known,
{
}

/// A block that was heard on gossip is announced as such, with its slot and root, and one that
/// was fetched is not; either is imported exactly on the lean chain.
pub proof fn law_gossip_is_announced_and_lean_blocks_are_imported<D>(
    chain: Chain,
    block: BlockInfo,
    source: BlockSource,
)
    ensures
        new_block_plan::<D>(chain, block, BlockSource::Gossip).announce == Some(
            ChainEvent::<D>::BlockGossip { slot: block.slot, block: block.root },
        ),
        new_block_plan::<D>(chain, block, BlockSource::Sync).announce is None,
        new_block_plan::<D>(Chain::Lean, block, source).import,
        !new_block_plan::<D>(Chain::Beacon, block, source).import,
{
}

/// A block is announced as imported exactly if the store accepted it and did not know it, with
/// its own slot and root, and the moves are announced exactly if the store accepted it.
pub proof fn law_new_blocks_are_announced<D>(block: BlockInfo, accepted: bool, was_known: bool)
    ensures
        import_event_of::<D>(block, true) is None,
        import_event_of::<D>(block, false) == Some(
            ChainEvent::<D>::Block { slot: block.slot, block: block.root },
        ),
        announced_on_import::<D>(block, accepted, was_known).contains(
            Announcement::Event(ChainEvent::Block { slot: block.slot, block: block.root }),
        ) <==> accepted && !was_known,
        announced_on_import::<D>(block, accepted, was_known).contains(Announcement::Moves)
            <==> accepted,
        announced_on_import::<D>(block, accepted, was_known).len() <= 2,
{
    let all = announced_on_import::<D>(block, accepted, was_known);
    if accepted && was_known {
        assert(all[0] is Moves);
    } else if accepted {
        assert(all[0] == Announcement::<D>::Event(
            ChainEvent::Block { slot: block.slot, block: block.root },
        ));
        assert(all[1] is Moves);
    }
}

/// What depends on a condition is there, as it is, exactly if the condition holds.
pub proof fn law_conditional_answers_are_kept_whole<T>(value: T)
    ensures
        given_if(true, value) == Some(value),
        given_if(false, value) is None,
{
}

/// Recovered aggregates are published all or none: all by an aggregator that is connected.
pub proof fn law_recovered_aggregates_are_published_by_aggregators(recovered: usize, flag: bool)
    ensures
        published_of(recovered, true, true) == recovered,
        published_of(recovered, false, flag) == 0,
        published_of(recovered, flag, false) == 0,
{
}

impl BlockChainServer {
    /// What to do with a block that arrived: only gossip is announced, since a fetched block
    /// arrives long after it was due; a lean block is imported on the lean chain alone.
    pub fn on_new_block<D>(&self, block: &BlockInfo, source: BlockSource) -> (res: NewBlockPlan<D>)
        ensures
            res == new_block_plan::<D>(self.config.chain, *block, source),
    {
        let announce: Option<ChainEvent<D>> = if source == BlockSource::Gossip {
            Some(ChainEvent::BlockGossip { slot: block.slot, block: block.root })
        } else {
            None
        };
        NewBlockPlan { announce, import: self.handles_lean() }
    }

    /// What to announce of a block that the store accepted; `was_known` says whether the store
    /// already held its state.
    pub fn import_event<D>(&self, block: &BlockInfo, was_known: bool) -> (res: Option<
        ChainEvent<D>,
    >)
        ensures
            res == import_event_of::<D>(*block, was_known),
    {
        if was_known {
            None
        } else {
            Some(ChainEvent::Block { slot: block.slot, block: block.root })
        }
    }

    /// What to announce once the store has accepted or refused a block, in order: a block that is
    /// new comes first, so that subscribers hear of it ahead of the moves of the head and the
    /// checkpoints that it causes. `was_known` says whether the store already held its state.
    pub fn import_announcements<D>(&self, block: &BlockInfo, accepted: bool, was_known: bool) -> (res:
        Vec<Announcement<D>>)
        ensures
            res@ == announced_on_import::<D>(*block, accepted, was_known),
    {
        let mut announcements: Vec<Announcement<D>> = Vec::new();
        if accepted {
            match self.import_event(block, was_known) {
                Some(event) => {
                    announcements.push(Announcement::Event(event));
                },
                None => {},
            }
            announcements.push(Announcement::Moves);
        }
        assert(announcements@ =~= announced_on_import::<D>(*block, accepted, was_known));
        announcements
    }

    /// What to announce of a gossiped attestation.
    pub fn attestation_event<D>(&self, validator_id: u64, data: D, accepted: bool) -> (res: Option<
        ChainEvent<D>,
    >)
        ensures
            res == given_if(accepted, ChainEvent::Attestation { validator_id, data }),
    {
        if accepted {
            Some(ChainEvent::Attestation { validator_id, data })
        } else {
            None
        }
    }

    /// What to announce of a gossiped aggregate.
    pub fn aggregate_event<D>(&self, participants: Vec<u64>, data: D, accepted: bool) -> (res: Option<
        ChainEvent<D>,
    >)
        ensures
            res == given_if(accepted, ChainEvent::Aggregate { participants, data }),
    {
        if accepted {
            Some(ChainEvent::Aggregate { participants, data })
        } else {
            None
        }
    }

    /// What to do with an aggregate that our worker produced in session `session_id`: nothing,
    /// unless that session is the current one.
    pub fn on_aggregate_produced<D>(
        &self,
        session_id: u64,
        participants: Vec<u64>,
        data: D,
    ) -> (res: Option<ProducedPlan<D>>)
        ensures
            res == given_if(
                self.has_session(session_id),
                (ProducedPlan {
                    announce: ChainEvent::Aggregate { participants, data },
                    publish: self.p2p_linked,
                }),
            ),
    {
        if self.is_current_session(session_id) {
            Some(
                ProducedPlan {
                    announce: ChainEvent::Aggregate { participants, data },
                    publish: self.p2p_linked,
                },
            )
        } else {
            None
        }
    }

    /// How many of the `recovered` aggregates of an imported block are published: all of them
    /// where aggregation is this node's role and the network side is connected, else none.
    pub fn reaggregated_to_publish(&self, recovered: usize, is_aggregator: bool) -> (res: usize)
        ensures
            res == published_of(recovered, is_aggregator, self.p2p_linked),
    {
        if is_aggregator && self.p2p_linked {
            recovered
        } else {
            0
        }
    }
}

/// The freshest slot that a block is known for.
pub open spec fn seen_slot(max_live_slot: Option<u64>, head_slot: u64) -> u64 {
    match max_live_slot {
        Some(slot) => slot,
        None => head_slot,
    }
}

/// The live chain tells how far the node has seen, and the head only where there is none.
pub proof fn law_the_live_chain_tells_the_seen_slot(live: u64, head: u64)
    ensures
        seen_slot(Some(live), head) == live,
        seen_slot(None, head) == head,
{
}

/// The freshest slot that a block is known for: that of the live chain, or, where it has none,
/// the head's.
pub fn max_seen_slot(max_live_slot: Option<u64>, head_slot: u64) -> (res: u64)
    ensures
        res == seen_slot(max_live_slot, head_slot),
{
    match max_live_slot {
        Some(slot) => slot,
        None => head_slot,
    }
}

} // verus!
