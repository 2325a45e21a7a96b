//! What holds of aggregation sessions, whenever they start.
use crate::chain::aggregation::{
    aggregation_ms, early_slot, early_threshold_of, enough_votes, is_store_slot, job_limit,
    lemma_voters_bound, session_opened, started_early, two_thirds, voters_on,
};
use crate::chain::server::{AggregationSession, BlockChainConfig, BlockChainServer};
use vstd::prelude::*;

verus! {

/// A session is published at the third interval of its slot, 1.6 seconds into it; what started
/// before is early by exactly what is missing to that moment.
pub proof fn law_sessions_are_published_with_their_interval(
    config: &BlockChainConfig,
    slot: u64,
    now_ms: u64,
)
    requires
        config.genesis_time * 1000 + 4000 * slot + 1600 <= u64::MAX,
    ensures
        ({
            let at = config.genesis_time * 1000 + 4000 * slot + 1600;
            let (start, kept) = session_opened(config, slot, true, now_ms as int);
            &&& aggregation_ms(config, slot as int) == at
            &&& start matches Some(s) && s.session_id == slot && s.publish_at_ms == at && (
            s.lead_ms is Some <==> now_ms < at) && (s.lead_ms matches Some(lead) ==> now_ms + lead
                == at)
            &&& kept matches Some(k) && k.session_id == slot && (k.early <==> now_ms < at)
        }),
{
}

/// Without anything to aggregate no session starts, and none is kept.
pub proof fn law_nothing_to_aggregate_leaves_no_session(
    config: &BlockChainConfig,
    slot: u64,
    now_ms: int,
)
    ensures
        session_opened(config, slot, false, now_ms).0 is None,
        session_opened(config, slot, false, now_ms).1 is None,
{
}

/// A session takes on one job exactly if the next slot's block is ours to build and duties are
/// allowed, and else as many as are allowed.
pub proof fn law_a_proposer_takes_on_one_job(
    config: &BlockChainConfig,
    slot: int,
    num_validators: int,
    duties_allowed: bool,
)
    requires
        slot >= 0,
        0 < num_validators <= u64::MAX,
    ensures
        duties_allowed && config.validator_ids@.contains(((slot + 1) % num_validators) as u64)
            ==> job_limit(config, slot, num_validators, duties_allowed) == 1,
        !(duties_allowed && config.validator_ids@.contains(((slot + 1) % num_validators) as u64))
            ==> job_limit(config, slot, num_validators, duties_allowed)
            == config.max_aggregation_jobs,
{
}

/// An aggregator may start early at every moment of the window before the aggregation interval,
/// in a slot that has had no session, and at no other moment.
pub proof fn law_the_early_window(
    server: &BlockChainServer,
    slot: u64,
    into_slot: int,
    is_aggregator: bool,
)
    requires
        server.config.wf(),
        0 <= into_slot < 4000,
    ensures
        ({
            let now = server.config.genesis_time * 1000 + 4000 * slot + into_slot;
            let open = 1600 - server.config.early_window_ms <= into_slot < 1600;
            let had_session = server.current_aggregation is Some
                && server.current_aggregation.unwrap().session_id == slot;
            &&& is_aggregator && open && !had_session ==> early_slot(server, is_aggregator, now)
                == Some(slot)
            &&& !(is_aggregator && open && !had_session) ==> early_slot(server, is_aggregator, now)
                is None
        }),
{
    let ms = 4000 * slot + into_slot;
    assert(ms / 4000 == slot);
    assert(ms % 4000 == into_slot);
}

/// Before genesis nothing starts early.
pub proof fn law_nothing_starts_before_genesis(
    server: &BlockChainServer,
    is_aggregator: bool,
    now_ms: int,
)
    requires
        now_ms < server.config.genesis_time * 1000,
    ensures
        early_slot(server, is_aggregator, now_ms) is None,
{
}

/// Two thirds, rounded up, are the least number that is no less than two thirds.
pub proof fn law_two_thirds_are_rounded_up(votes: int)
    requires
        votes >= 0,
    ensures
        3 * two_thirds(votes) >= 2 * votes,
        3 * (two_thirds(votes) - 1) < 2 * votes,
{
}

/// A vote starts aggregation early exactly if two thirds of the voters on our subnets have cast
/// it and there are such voters.
pub proof fn law_two_thirds_of_our_voters_start_early(
    config: &BlockChainConfig,
    num_validators: nat,
    group: int,
)
    requires
        config.attestation_committee_count > 0,
        group >= 0,
    ensures
        ({
            let voters = voters_on(
                config.subscribed_subnets@,
                config.attestation_committee_count as int,
                num_validators,
            );
            enough_votes(early_threshold_of(config, num_validators), group) <==> voters > 0 && 3
                * group >= 2 * voters
        }),
{
}

/// Without committees nothing starts early, however many votes there are.
pub proof fn law_no_committees_no_early_start(
    config: &BlockChainConfig,
    num_validators: nat,
    group: int,
)
    requires
        config.attestation_committee_count == 0,
    ensures
        !enough_votes(early_threshold_of(config, num_validators), group),
{
}

/// Every validator votes on one subnet: those on some subnets and those on all others make up all
/// validators.
pub proof fn law_every_validator_votes_on_one_subnet(
    subnets: Set<u64>,
    committees: int,
    n: nat,
)
    requires
        0 < committees <= u64::MAX,
    ensures
        voters_on(subnets, committees, n) + voters_on(subnets.complement(), committees, n) == n,
    decreases n,
{
    if n > 0 {
        law_every_validator_votes_on_one_subnet(subnets, committees, (n - 1) as nat);
    }
}

/// One more validator is one more voter exactly if the subnet that it votes on, its number modulo
/// the number of committees, is among the subnets; a subnet beyond the committees has no voters.
pub proof fn law_validators_vote_on_the_subnet_of_their_number(
    subnets: Set<u64>,
    committees: int,
    vid: nat,
    subnet: u64,
    k: nat,
)
    requires
        0 < committees <= u64::MAX,
        subnet < committees,
        vid == subnet + k * committees,
    ensures
        voters_on(subnets, committees, vid + 1) - voters_on(subnets, committees, vid) == (
        if subnets.contains(subnet) {
            1int
        } else {
            0
        }),
        voters_on(subnets, committees, 0) == 0,
{
    assert(vid as int % committees == subnet) by {
        vstd::arithmetic::div_mod::lemma_fundamental_div_mod_converse(
            vid as int,
            committees,
            k as int,
            subnet as int,
        );
    }
    assert((vid + 1 - 1) as nat == vid);
    lemma_voters_bound(subnets, committees, vid);
}

/// A vote concerns the store's own slot exactly while the store's clock is in its five intervals.
pub proof fn law_votes_count_in_their_own_slot(slot: int, store_time: int)
    requires
        store_time >= 0,
    ensures
        is_store_slot(slot, store_time) <==> 5 * slot <= store_time < 5 * slot + 5,
{
}

/// A session is said to have been early exactly if it is the one that is kept and was early.
pub proof fn law_only_the_kept_session_was_early(session: AggregationSession, session_id: u64)
    ensures
        started_early(Some(session), session_id) <==> session.session_id == session_id
            && session.early,
        !started_early(None, session_id),
{
}

} // verus!
