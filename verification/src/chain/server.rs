//! The state that sequences all chain updates.
use crate::chain::pending::PendingBlocks;
use crate::primitives::H256;
use std::collections::HashSet;
use vstd::prelude::*;

verus! {

/// Which chain the store follows.
#[derive(Clone, Copy, Debug, PartialEq, Eq, Structural)]
pub enum Chain {
    /// The lean chain.
    Lean,
    /// The Beacon Chain.
    Beacon,
}

/// Where a block came from.
#[derive(Clone, Copy, Debug, PartialEq, Eq, Structural)]
pub enum BlockSource {
    /// Heard on gossip.
    Gossip,
    /// Fetched by request.
    Sync,
}

/// Startup settings of the chain server.
pub struct BlockChainConfig {
    /// Which chain the store follows.
    pub chain: Chain,
    /// Genesis, in seconds since the epoch.
    pub genesis_time: u64,
    /// Number of attestation committees, which is the number of subnets.
    pub attestation_committee_count: u64,
    /// Attestation subnets that this node subscribes to.
    pub subscribed_subnets: HashSet<u64>,
    /// The validators whose keys this node holds.
    pub validator_ids: Vec<u64>,
    /// Length of the window before the aggregation interval in which aggregation may start
    /// early, in milliseconds.
    pub early_window_ms: u64,
    /// Most jobs that one aggregation session takes on.
    pub max_aggregation_jobs: usize,
}

impl BlockChainConfig {
    /// Whether the settings fit the clock: genesis in milliseconds fits a machine word, the early
    /// window fits before the aggregation interval, and lies after the attestation interval.
    pub open spec fn wf(&self) -> bool {
        &&& self.genesis_time * 1000 <= u64::MAX
        &&& self.early_window_ms <= crate::clock::MILLISECONDS_PER_INTERVAL
    }

    /// Genesis in milliseconds.
    pub open spec fn genesis_ms(&self) -> int {
        self.genesis_time * 1000
    }
}

/// The one aggregation session of a slot. It stays after its worker finished, as the mark that
/// the slot had its session, until the next session replaces it.
#[derive(Clone, Copy, Debug, PartialEq, Eq, Structural)]
pub struct AggregationSession {
    /// The slot that the session belongs to.
    pub session_id: u64,
    /// Whether it started before the aggregation interval.
    pub early: bool,
}

/// The chain server.
pub struct BlockChainServer {
    /// Startup settings.
    pub config: BlockChainConfig,
    /// Whether the network side is connected.
    pub p2p_linked: bool,
    /// Blocks that wait for an ancestor.
    pub pending: PendingBlocks,
    /// The current aggregation session.
    pub current_aggregation: Option<AggregationSession>,
    /// The slot that the beacon head was last recomputed for.
    pub beacon_head_updated_for_slot: Option<u64>,
}

/// A block as the import logic reads it.
#[derive(Clone, Copy, Debug)]
pub struct BlockInfo {
    /// The block's slot.
    pub slot: u64,
    /// The block's root.
    pub root: H256,
    /// The root of the block's parent.
    pub parent_root: H256,
    /// The validator that proposed it.
    pub proposer: u64,
}

impl BlockChainServer {
    /// A server that has seen nothing yet.
    pub fn new(config: BlockChainConfig) -> (res: BlockChainServer)
        ensures
            res.config == config,
            !res.p2p_linked,
            res.pending@.children == Map::<H256, Set<H256>>::empty(),
            res.pending@.ancestors == Map::<H256, H256>::empty(),
            res.current_aggregation is None,
            res.beacon_head_updated_for_slot is None,
    {
        BlockChainServer {
            config,
            p2p_linked: false,
            pending: PendingBlocks::new(),
            current_aggregation: None,
            beacon_head_updated_for_slot: None,
        }
    }

    /// Whether everything but the pending table is as in `other`.
    pub open spec fn differs_in_pending_only(&self, other: &BlockChainServer) -> bool {
        &&& self.config == other.config
        &&& self.p2p_linked == other.p2p_linked
        &&& self.current_aggregation == other.current_aggregation
        &&& self.beacon_head_updated_for_slot == other.beacon_head_updated_for_slot
    }

    /// Whether everything but the aggregation session is as in `other`.
    pub open spec fn differs_in_session_only(&self, other: &BlockChainServer) -> bool {
        &&& self.config == other.config
        &&& self.p2p_linked == other.p2p_linked
        &&& self.pending == other.pending
        &&& self.beacon_head_updated_for_slot == other.beacon_head_updated_for_slot
    }

    /// Connects the network side.
    pub fn link_p2p(&mut self)
        ensures
            final(self).p2p_linked,
            final(self).config == old(self).config,
            final(self).pending == old(self).pending,
            final(self).current_aggregation == old(self).current_aggregation,
            final(self).beacon_head_updated_for_slot == old(self).beacon_head_updated_for_slot,
    {
        self.p2p_linked = true;
    }

    /// Whether messages of the lean chain (ticks with duties, blocks, attestations and
    /// aggregates) are handled here, rather than dropped.
    pub fn handles_lean(&self) -> (res: bool)
        ensures
            res == (self.config.chain == Chain::Lean),
    {
        match self.config.chain {
            Chain::Lean => true,
            Chain::Beacon => false,
        }
    }
}

/// A server that differs in its pending table only has the settings, the connection, the session
/// and the head mark of the other, and one that differs in its session only has all but that.
pub proof fn law_nothing_else_changes(a: &BlockChainServer, b: &BlockChainServer)
    ensures
        a.differs_in_pending_only(b) ==> a.config == b.config && a.p2p_linked == b.p2p_linked
            && a.current_aggregation == b.current_aggregation && a.beacon_head_updated_for_slot
            == b.beacon_head_updated_for_slot,
        a.differs_in_session_only(b) ==> a.config == b.config && a.p2p_linked == b.p2p_linked
            && a.pending == b.pending && a.beacon_head_updated_for_slot
            == b.beacon_head_updated_for_slot,
{
}

} // verus!
