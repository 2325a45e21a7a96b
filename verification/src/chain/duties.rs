//! The clock tick and the duties that it brings.
use crate::chain::server::{BlockChainConfig, BlockChainServer};
use crate::clock::{
    interval_of_ms, key_slot, low_32_bits, since_genesis, slot_of_ms, SlotInterval,
    MILLISECONDS_PER_INTERVAL, MILLISECONDS_PER_SLOT,
};
use vstd::prelude::*;

verus! {

/// Whether validator `vid` proposes in `slot`: validators take turns.
pub open spec fn proposes(vid: int, slot: int, num_validators: int) -> bool {
    vid == slot % num_validators
}

/// Whether validator `vid` proposes in `slot`.
pub fn is_proposer(vid: u64, slot: u64, num_validators: u64) -> (res: bool)
    requires
        num_validators > 0,
    ensures
        res == proposes(vid as int, slot as int, num_validators as int),
{
    slot % num_validators == vid
}

/// The one of `ids` that proposes in `slot`, if one does.
pub open spec fn our_proposer(ids: Seq<u64>, slot: int, num_validators: int) -> Option<u64> {
    if ids.contains((slot % num_validators) as u64) {
        Some((slot % num_validators) as u64)
    } else {
        None
    }
}

/// A tick that runs.
#[derive(Clone, Copy, Debug, PartialEq, Eq, Structural)]
pub struct Tick {
    /// The running slot.
    pub slot: u64,
    /// The running phase of the slot.
    pub interval: SlotInterval,
    /// Whether to record the votes that are about to be promoted.
    pub snapshot_coverage: bool,
    /// Whether one of our validators proposes in this slot, at its start.
    pub proposing: bool,
}

/// What to do with a tick.
#[derive(Clone, Copy, Debug, PartialEq, Eq, Structural)]
pub enum TickPlan {
    /// Nothing: the store's clock is already there.
    Skip,
    /// Nothing: the head state has no validators.
    NoValidators,
    /// Advance the store, and then see to the duties.
    Run(Tick),
}

/// The duties of a tick, once the store has advanced.
#[derive(Clone, Copy, Debug, PartialEq, Eq, Structural)]
pub enum TickDuty {
    /// None: advancing the store was all.
    Idle,
    /// Those of the attestation interval.
    Attest {
        /// The slot to report vote coverage for.
        report_slot: Option<u64>,
        /// Whether our validators attest.
        attest: bool,
        /// When to look whether aggregation can start early, in milliseconds from now.
        early_check_in_ms: Option<u64>,
    },
    /// Start the slot's aggregation session.
    Aggregate,
    /// The slot's aggregation session has already started.
    AlreadyAggregating,
    /// Aggregation is not this node's role.
    NotAggregator,
    /// Build and publish the block of `slot`.
    Propose {
        /// The slot to build for.
        slot: u64,
        /// Our validator that proposes in it.
        validator_id: u64,
    },
}

/// What to do with a tick at `timestamp_ms`, with the store's clock at `store_time` intervals.
pub open spec fn tick_plan(
    config: &BlockChainConfig,
    timestamp_ms: int,
    store_time: int,
    num_validators: int,
) -> TickPlan {
    let ms = since_genesis(timestamp_ms, config.genesis_ms());
    if store_time > 0 && ms / MILLISECONDS_PER_INTERVAL as int <= store_time {
        TickPlan::Skip
    } else if num_validators == 0 {
        TickPlan::NoValidators
    } else {
        TickPlan::Run(
            Tick {
                slot: slot_of_ms(ms) as u64,
                interval: interval_of_ms(ms),
                snapshot_coverage: interval_of_ms(ms) == SlotInterval::EndOfSlot,
                proposing: interval_of_ms(ms) == SlotInterval::BlockPublication && slot_of_ms(ms)
                    > 0 && our_proposer(
                    config.validator_ids@,
                    slot_of_ms(ms),
                    num_validators,
                ) is Some,
            },
        )
    }
}

/// The proposer of `slot` among our validators, while duties are allowed.
pub open spec fn dutiful_proposer(
    config: &BlockChainConfig,
    slot: int,
    num_validators: int,
    duties_allowed: bool,
) -> Option<u64> {
    if duties_allowed {
        our_proposer(config.validator_ids@, slot, num_validators)
    } else {
        None
    }
}

/// The duties of a tick.
pub open spec fn duty_of(
    server: &BlockChainServer,
    tick: Tick,
    is_aggregator: bool,
    duties_allowed: bool,
    num_validators: int,
) -> TickDuty {
    match tick.interval {
        SlotInterval::BlockPublication => TickDuty::Idle,
        SlotInterval::AttestationProduction => TickDuty::Attest {
            report_slot: if tick.slot > 0 {
                Some((tick.slot - 1) as u64)
            } else {
                None
            },
            attest: duties_allowed,
            early_check_in_ms: if is_aggregator {
                Some((MILLISECONDS_PER_INTERVAL - server.config.early_window_ms) as u64)
            } else {
                None
            },
        },
        SlotInterval::Aggregation => if !is_aggregator {
            TickDuty::NotAggregator
        } else if server.has_session(tick.slot) {
            TickDuty::AlreadyAggregating
        } else {
            TickDuty::Aggregate
        },
        SlotInterval::SafeTargetUpdate => TickDuty::Idle,
        SlotInterval::EndOfSlot => match dutiful_proposer(
            &server.config,
            tick.slot + 1,
            num_validators,
            duties_allowed,
        ) {
            Some(validator_id) => TickDuty::Propose { slot: (tick.slot + 1) as u64, validator_id },
            None => TickDuty::Idle,
        },
    }
}

/// What to do with an attestation that one of our validators was to sign.
#[derive(Clone, Copy, Debug, PartialEq, Eq, Structural)]
pub struct AttestationDuty {
    /// Store it here too: gossip never comes back to its sender, so an aggregator would miss
    /// its own votes.
    pub self_deliver: bool,
    /// Publish it.
    pub publish: bool,
}

/// What to do with an attestation that one of our validators was to sign.
pub open spec fn attestation_duty_of(signed: bool, is_aggregator: bool, linked: bool)
    -> AttestationDuty {
    AttestationDuty { self_deliver: signed && is_aggregator, publish: signed && linked }
}

impl BlockChainServer {
    /// Whether the slot has had its aggregation session.
    pub open spec fn has_session(&self, slot: u64) -> bool {
        match self.current_aggregation {
            Some(session) => session.session_id == slot,
            None => false,
        }
    }

    /// Whether the current aggregation session is that of `slot`.
    pub fn session_is(&self, slot: u64) -> (res: bool)
        ensures
            res == self.has_session(slot),
    {
        match &self.current_aggregation {
            Some(session) => session.session_id == slot,
            None => false,
        }
    }

    /// The validator of ours that proposes in `slot`, if one does.
    pub fn get_our_proposer(&self, slot: u64, num_validators: u64) -> (res: Option<u64>)
        requires
            num_validators > 0,
        ensures
            res == our_proposer(self.config.validator_ids@, slot as int, num_validators as int),
    {
        let ids = &self.config.validator_ids;
        let mut i: usize = 0;
        while i < ids.len()
            invariant
                i <= ids@.len(),
                ids@ == self.config.validator_ids@,
                num_validators > 0,
                forall|j: int| 0 <= j < i ==> ids@[j] != slot % num_validators,
            decreases ids@.len() - i,
        {
            if is_proposer(ids[i], slot, num_validators) {
                assert(ids@.contains(ids@[i as int]));
                return Some(ids[i]);
            }
            i = i + 1;
        }
        None
    }

    /// What to do with a tick at `timestamp_ms`: a tick that the store's clock has already
    /// reached is skipped, so that a wall clock that lags behind repeats no duty.
    pub fn begin_tick(&self, timestamp_ms: u64, store_time: u64, num_validators: u64) -> (res:
        TickPlan)
        requires
            self.config.wf(),
        ensures
            res == tick_plan(
                &self.config,
                timestamp_ms as int,
                store_time as int,
                num_validators as int,
            ),
    {
        let genesis_time_ms: u64 = self.config.genesis_time * 1000;
        let time_since_genesis_ms: u64 = timestamp_ms.saturating_sub(genesis_time_ms);
        let slot: u64 = time_since_genesis_ms / MILLISECONDS_PER_SLOT;
        let interval = SlotInterval::from_ms_since_genesis(time_since_genesis_ms);
        let tick_interval: u64 = time_since_genesis_ms / MILLISECONDS_PER_INTERVAL;
        if store_time > 0 && tick_interval <= store_time {
            return TickPlan::Skip;
        }
        if num_validators == 0 {
            return TickPlan::NoValidators;
        }
        let proposing = interval == SlotInterval::BlockPublication && slot > 0
            && self.get_our_proposer(slot, num_validators).is_some();
        TickPlan::Run(
            Tick {
                slot,
                interval,
                snapshot_coverage: interval == SlotInterval::EndOfSlot,
                proposing,
            },
        )
    }

    /// The proposer of `slot` among our validators, while duties are allowed.
    pub fn proposer_on_duty(&self, slot: u64, num_validators: u64, duties_allowed: bool) -> (res:
        Option<u64>)
        requires
            num_validators > 0,
        ensures
            res == dutiful_proposer(
                &self.config,
                slot as int,
                num_validators as int,
                duties_allowed,
            ),
    {
        if duties_allowed {
            self.get_our_proposer(slot, num_validators)
        } else {
            None
        }
    }

    /// The duties of a tick, once the store has advanced. The block of the next slot is built
    /// one interval early, in the last interval of the slot before.
    pub fn tick_duty(
        &self,
        tick: &Tick,
        is_aggregator: bool,
        duties_allowed: bool,
        num_validators: u64,
    ) -> (res: TickDuty)
        requires
            self.config.wf(),
            num_validators > 0,
            tick.slot < u64::MAX,
        ensures
            res == duty_of(self, *tick, is_aggregator, duties_allowed, num_validators as int),
    {
        match tick.interval {
            SlotInterval::BlockPublication => TickDuty::Idle,
            SlotInterval::AttestationProduction => {
                let report_slot: Option<u64> = if tick.slot > 0 {
                    Some(tick.slot - 1)
                } else {
                    None
                };
                let early_check_in_ms: Option<u64> = if is_aggregator {
                    Some(MILLISECONDS_PER_INTERVAL - self.config.early_window_ms)
                } else {
                    None
                };
                TickDuty::Attest { report_slot, attest: duties_allowed, early_check_in_ms }
            },
            SlotInterval::Aggregation => {
                if !is_aggregator {
                    TickDuty::NotAggregator
                } else if self.session_is(tick.slot) {
                    TickDuty::AlreadyAggregating
                } else {
                    TickDuty::Aggregate
                }
            },
            SlotInterval::SafeTargetUpdate => TickDuty::Idle,
            SlotInterval::EndOfSlot => {
                let next_slot: u64 = tick.slot + 1;
                match self.proposer_on_duty(next_slot, num_validators, duties_allowed) {
                    Some(validator_id) => TickDuty::Propose { slot: next_slot, validator_id },
                    None => TickDuty::Idle,
                }
            },
        }
    }

    /// What to do with an attestation that one of our validators was to sign.
    pub fn attestation_duty(&self, signed: bool, is_aggregator: bool) -> (res: AttestationDuty)
        ensures
            res == attestation_duty_of(signed, is_aggregator, self.p2p_linked),
    {
        AttestationDuty {
            self_deliver: signed && is_aggregator,
            publish: signed && self.p2p_linked,
        }
    }
}

/// The slot that signing keys are brought up to at the end of a tick of `slot`.
pub fn next_key_slot(slot: u64) -> (res: u32)
    requires
        slot < u64::MAX,
    ensures
        res == key_slot(slot + 1),
{
    low_32_bits(slot + 1)
}

/// Each slot has exactly one proposer among the validators.
pub proof fn law_one_proposer_per_slot(slot: int, num_validators: int, a: int, b: int)
    requires
        slot >= 0,
        num_validators > 0,
    ensures
        0 <= slot % num_validators < num_validators,
        proposes(slot % num_validators, slot, num_validators),
        proposes(a, slot, num_validators) && proposes(b, slot, num_validators) ==> a == b,
{
}

/// Validators propose in turns: the same validator is up again after as many slots as there are
/// validators.
pub proof fn law_proposers_take_turns(vid: int, slot: int, num_validators: int)
    requires
        slot >= 0,
        num_validators > 0,
    ensures
        proposes(vid, slot + num_validators, num_validators) == proposes(
            vid,
            slot,
            num_validators,
        ),
{
    vstd::arithmetic::div_mod::lemma_mod_add_multiples_vanish(slot, num_validators);
}

/// A tick never repeats: once the store's clock stands at the interval of a tick (or, as after
/// an early build, beyond it), a tick of that interval is skipped.
pub proof fn law_processed_interval_is_skipped(
    config: &BlockChainConfig,
    timestamp_ms: int,
    store_time: int,
    num_validators: int,
)
    requires
        store_time > 0,
        store_time >= since_genesis(timestamp_ms, config.genesis_ms())
            / MILLISECONDS_PER_INTERVAL as int,
    ensures
        tick_plan(config, timestamp_ms, store_time, num_validators) == TickPlan::Skip,
{
}

/// A block is built for the slot right after the running one, in the running slot's last
/// interval, by the validator whose turn that slot is, and only while duties are allowed.
pub proof fn law_proposals_are_built_one_interval_early(
    server: &BlockChainServer,
    tick: Tick,
    is_aggregator: bool,
    duties_allowed: bool,
    num_validators: int,
)
    requires
        num_validators > 0,
        num_validators <= u64::MAX,
        tick.slot < u64::MAX,
    ensures
        duty_of(server, tick, is_aggregator, duties_allowed, num_validators) matches
            TickDuty::Propose { slot, validator_id } ==> {
            &&& tick.interval == SlotInterval::EndOfSlot
            &&& slot == tick.slot + 1
            &&& duties_allowed
            &&& server.config.validator_ids@.contains(validator_id)
            &&& proposes(validator_id as int, slot as int, num_validators)
        },
        tick.interval == SlotInterval::EndOfSlot && duties_allowed ==> forall|v: u64|
            server.config.validator_ids@.contains(v) && #[trigger] proposes(
                v as int,
                tick.slot + 1,
                num_validators,
            ) ==> duty_of(server, tick, is_aggregator, duties_allowed, num_validators) == (
            TickDuty::Propose { slot: (tick.slot + 1) as u64, validator_id: v }),
{
    let m = (tick.slot + 1) % num_validators;
    assert(0 <= m < num_validators) by {
        vstd::arithmetic::div_mod::lemma_mod_bound(tick.slot + 1, num_validators);
    }
}

} // verus!
