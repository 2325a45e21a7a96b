//! What holds of every tick and the duties that it brings.
use crate::chain::duties::{
    attestation_duty_of, dutiful_proposer, duty_of, our_proposer, tick_plan, Tick, TickDuty,
    TickPlan,
};
use crate::chain::server::{AggregationSession, BlockChainConfig, BlockChainServer};
use crate::clock::{interval_of_ms, SlotInterval};
use vstd::prelude::*;

verus! {

/// In the attestation interval the duty is to attest, whatever the node's role: our validators
/// vote exactly if duties are allowed, the slot before is reported on unless there is none, and
/// an aggregator looks for an early start one window before the aggregation interval.
pub proof fn law_validators_vote_in_the_attestation_interval(
    server: &BlockChainServer,
    tick: Tick,
    is_aggregator: bool,
    duties_allowed: bool,
    num_validators: int,
)
    requires
        tick.interval == SlotInterval::AttestationProduction,
        server.config.wf(),
    ensures
        duty_of(server, tick, is_aggregator, duties_allowed, num_validators) matches
            TickDuty::Attest { report_slot, attest, early_check_in_ms } && {
            &&& attest <==> duties_allowed
            &&& tick.slot == 0 ==> report_slot is None
            &&& tick.slot > 0 ==> (report_slot matches Some(reported) && reported + 1
                == tick.slot)
            &&& !is_aggregator ==> early_check_in_ms is None
            &&& is_aggregator ==> (early_check_in_ms matches Some(wait) && wait
                + server.config.early_window_ms == 800)
        },
{
}

/// In the aggregation interval an aggregator starts the slot's session unless the slot has had
/// one, and another node starts none.
pub proof fn law_aggregators_aggregate_once_per_slot(
    server: &BlockChainServer,
    tick: Tick,
    is_aggregator: bool,
    duties_allowed: bool,
    num_validators: int,
)
    requires
        tick.interval == SlotInterval::Aggregation,
    ensures
        !is_aggregator ==> duty_of(server, tick, is_aggregator, duties_allowed, num_validators)
            == TickDuty::NotAggregator,
        is_aggregator && (server.current_aggregation is None
            || server.current_aggregation.unwrap().session_id != tick.slot) ==> duty_of(
            server,
            tick,
            is_aggregator,
            duties_allowed,
            num_validators,
        ) == TickDuty::Aggregate,
        is_aggregator && server.current_aggregation is Some
            && server.current_aggregation.unwrap().session_id == tick.slot ==> duty_of(
            server,
            tick,
            is_aggregator,
            duties_allowed,
            num_validators,
        ) == TickDuty::AlreadyAggregating,
{
}

/// At the start of a slot, and when the safe target moves, advancing the store is all.
pub proof fn law_two_intervals_bring_no_duty(
    server: &BlockChainServer,
    tick: Tick,
    is_aggregator: bool,
    duties_allowed: bool,
    num_validators: int,
)
    requires
        tick.interval == SlotInterval::BlockPublication || tick.interval
            == SlotInterval::SafeTargetUpdate,
    ensures
        duty_of(server, tick, is_aggregator, duties_allowed, num_validators) == TickDuty::Idle,
{
}

/// At the end of a slot the next slot's block is built exactly if duties are allowed and one of
/// our validators is the one whose turn the next slot is.
pub proof fn law_the_next_block_is_built_by_its_proposer(
    server: &BlockChainServer,
    tick: Tick,
    is_aggregator: bool,
    duties_allowed: bool,
    num_validators: int,
    vid: u64,
)
    requires
        tick.interval == SlotInterval::EndOfSlot,
        0 < num_validators <= u64::MAX,
        tick.slot < u64::MAX,
        vid == (tick.slot + 1) % num_validators,
    ensures
        duties_allowed && server.config.validator_ids@.contains(vid) ==> duty_of(
            server,
            tick,
            is_aggregator,
            duties_allowed,
            num_validators,
        ) == (TickDuty::Propose { slot: (tick.slot + 1) as u64, validator_id: vid }),
        !(duties_allowed && server.config.validator_ids@.contains(vid)) ==> duty_of(
            server,
            tick,
            is_aggregator,
            duties_allowed,
            num_validators,
        ) == TickDuty::Idle,
{
}

/// The duty of a tick depends on the node's sync state and role only where they have a say: a
/// node's role changes neither whether it votes nor whether it builds a block.
pub proof fn law_the_role_changes_aggregation_alone(
    server: &BlockChainServer,
    tick: Tick,
    duties_allowed: bool,
    num_validators: int,
)
    ensures
        tick.interval != SlotInterval::AttestationProduction && tick.interval
            != SlotInterval::Aggregation ==> duty_of(
            server,
            tick,
            true,
            duties_allowed,
            num_validators,
        ) == duty_of(server, tick, false, duties_allowed, num_validators),
        tick.interval == SlotInterval::Aggregation ==> duty_of(
            server,
            tick,
            true,
            true,
            num_validators,
        ) == duty_of(server, tick, true, false, num_validators),
{
}

/// A tick runs exactly if there are validators and the store's clock has not reached the tick's
/// interval, or has not started at all.
pub proof fn law_ticks_run_when_they_are_due(
    config: &BlockChainConfig,
    timestamp_ms: int,
    store_time: int,
    num_validators: int,
)
    requires
        store_time >= 0,
        num_validators >= 0,
        timestamp_ms >= 0,
    ensures
        ({
            let ms = if timestamp_ms >= config.genesis_time * 1000 {
                timestamp_ms - config.genesis_time * 1000
            } else {
                0
            };
            let due = store_time == 0 || ms >= 800 * (store_time + 1);
            let plan = tick_plan(config, timestamp_ms, store_time, num_validators);
            &&& !due ==> plan == TickPlan::Skip
            &&& due && num_validators == 0 ==> plan == TickPlan::NoValidators
            &&& due && num_validators > 0 ==> plan is Run
        }),
{
    let ms = if timestamp_ms >= config.genesis_time * 1000 {
        timestamp_ms - config.genesis_time * 1000
    } else {
        0
    };
    assert(ms == 800 * (ms / 800) + ms % 800);
}

/// A tick that runs is told the slot and the phase that the clock is in; votes are recorded at
/// the end of a slot alone, and the store is told of a proposal exactly at the start of a later
/// slot than the first that one of our validators proposes in.
pub proof fn law_ticks_know_where_they_are(
    config: &BlockChainConfig,
    passed_ms: int,
    store_time: int,
    num_validators: int,
    tick: Tick,
)
    requires
        0 <= passed_ms <= u64::MAX,
        0 < num_validators <= u64::MAX,
        tick_plan(config, config.genesis_time * 1000 + passed_ms, store_time, num_validators)
            == TickPlan::Run(tick),
    ensures
        4000 * tick.slot <= passed_ms < 4000 * (tick.slot + 1),
        tick.interval == interval_of_ms(passed_ms),
        tick.snapshot_coverage <==> passed_ms % 4000 >= 3200,
        tick.proposing <==> passed_ms % 4000 < 800 && tick.slot > 0
            && config.validator_ids@.contains((tick.slot as int % num_validators) as u64),
{
    crate::clock_laws::law_phases_follow_one_another(passed_ms);
    crate::clock_laws::law_slots_take_four_seconds(passed_ms);
}

/// Of our validators exactly the one whose turn a slot is proposes in it, and none does without
/// leave to do duties.
pub proof fn law_our_proposer_is_whose_turn_it_is(
    config: &BlockChainConfig,
    slot: int,
    num_validators: int,
    vid: u64,
    duties_allowed: bool,
)
    requires
        slot >= 0,
        0 < num_validators <= u64::MAX,
    ensures
        our_proposer(config.validator_ids@, slot, num_validators) == Some(vid) <==> (
        config.validator_ids@.contains(vid) && vid == slot % num_validators),
        dutiful_proposer(config, slot, num_validators, true) == our_proposer(
            config.validator_ids@,
            slot,
            num_validators,
        ),
        dutiful_proposer(config, slot, num_validators, false) is None,
{
    vstd::arithmetic::div_mod::lemma_mod_bound(slot, num_validators);
}

/// A signed attestation is published exactly where the network side is connected, and delivered
/// to the node itself exactly where the node aggregates; one that was not signed is neither.
pub proof fn law_signed_attestations_go_out(is_aggregator: bool, linked: bool)
    ensures
        attestation_duty_of(true, is_aggregator, linked).publish == linked,
        attestation_duty_of(true, is_aggregator, linked).self_deliver == is_aggregator,
        !attestation_duty_of(false, is_aggregator, linked).publish,
        !attestation_duty_of(false, is_aggregator, linked).self_deliver,
{
}

/// A slot has had its session exactly if the session that is kept is that of the slot.
pub proof fn law_a_session_marks_its_own_slot(
    server: &BlockChainServer,
    session: AggregationSession,
    slot: u64,
)
    ensures
        server.current_aggregation is None ==> !server.has_session(slot),
        server.current_aggregation == Some(session) ==> (server.has_session(slot) <==> slot
            == session.session_id),
{
}

} // verus!
