use ethlambda::chain::duties::{is_proposer, next_key_slot, Tick, TickDuty, TickPlan};
use ethlambda::chain::events::{max_seen_slot, Announcement, ChainEvent};
use ethlambda::chain::server::{
    AggregationSession, BlockChainConfig, BlockChainServer, BlockInfo, BlockSource, Chain,
};
use ethlambda::clock::SlotInterval;
use ethlambda::primitives::H256;
use std::collections::HashSet;

fn server(validator_ids: Vec<u64>, subnets: &[u64], committees: u64) -> BlockChainServer {
    BlockChainServer::new(BlockChainConfig {
        chain: Chain::Lean,
        genesis_time: 10,
        attestation_committee_count: committees,
        subscribed_subnets: subnets.iter().copied().collect::<HashSet<u64>>(),
        validator_ids,
        early_window_ms: 200,
        max_aggregation_jobs: 8,
    })
}

fn tick(slot: u64, interval: SlotInterval) -> Tick {
    Tick { slot, interval, snapshot_coverage: false, proposing: false }
}

#[test]
fn validators_propose_in_turns() {
    assert!(is_proposer(0, 0, 4));
    assert!(is_proposer(3, 7, 4));
    assert!(!is_proposer(3, 8, 4));
    let server = server(vec![1, 3], &[], 1);
    assert_eq!(server.get_our_proposer(5, 4), Some(1));
    assert_eq!(server.get_our_proposer(7, 4), Some(3));
    assert_eq!(server.get_our_proposer(6, 4), None);
}

#[test]
fn a_tick_the_store_has_reached_is_skipped() {
    let server = server(vec![0], &[], 1);
    // 8 s after genesis is interval 10.
    assert_eq!(server.begin_tick(18_000, 10, 4), TickPlan::Skip);
    assert_eq!(server.begin_tick(18_000, 11, 4), TickPlan::Skip);
    assert!(matches!(server.begin_tick(18_000, 9, 4), TickPlan::Run(_)));
    // A store that has not started yet takes its first tick.
    assert!(matches!(server.begin_tick(10_000, 0, 4), TickPlan::Run(_)));
}

#[test]
fn a_tick_without_validators_is_dropped() {
    let server = server(vec![0], &[], 1);
    assert_eq!(server.begin_tick(18_000, 9, 0), TickPlan::NoValidators);
}

#[test]
fn the_start_of_our_own_slot_is_marked() {
    let server = server(vec![2], &[], 1);
    assert_eq!(
        server.begin_tick(18_000, 9, 4),
        TickPlan::Run(Tick {
            slot: 2,
            interval: SlotInterval::BlockPublication,
            snapshot_coverage: false,
            proposing: true,
        })
    );
    // The genesis slot has no proposal, and neither has a slot of another's.
    let other = BlockChainServer::new(BlockChainConfig {
        chain: Chain::Lean,
        genesis_time: 10,
        attestation_committee_count: 1,
        subscribed_subnets: HashSet::new(),
        validator_ids: vec![0, 1],
        early_window_ms: 200,
        max_aggregation_jobs: 8,
    });
    assert!(matches!(other.begin_tick(10_000, 0, 4), TickPlan::Run(t) if !t.proposing));
    assert!(matches!(other.begin_tick(18_000, 9, 4), TickPlan::Run(t) if !t.proposing));
}

#[test]
fn the_end_of_a_slot_records_its_votes() {
    let server = server(vec![2], &[], 1);
    match server.begin_tick(10_000 + 4_000 + 3_200, 0, 4) {
        TickPlan::Run(t) => {
            assert_eq!(t.slot, 1);
            assert_eq!(t.interval, SlotInterval::EndOfSlot);
            assert!(t.snapshot_coverage);
        }
        other => panic!("unexpected {other:?}"),
    }
}

#[test]
fn attestation_duties() {
    let server = server(vec![2], &[], 1);
    assert_eq!(
        server.tick_duty(&tick(3, SlotInterval::AttestationProduction), true, true, 4),
        TickDuty::Attest { report_slot: Some(2), attest: true, early_check_in_ms: Some(600) }
    );
    assert_eq!(
        server.tick_duty(&tick(0, SlotInterval::AttestationProduction), false, false, 4),
        TickDuty::Attest { report_slot: None, attest: false, early_check_in_ms: None }
    );
}

#[test]
fn aggregation_starts_once_per_slot() {
    let mut server = server(vec![2], &[], 1);
    let at = tick(3, SlotInterval::Aggregation);
    assert_eq!(server.tick_duty(&at, false, true, 4), TickDuty::NotAggregator);
    assert_eq!(server.tick_duty(&at, true, true, 4), TickDuty::Aggregate);
    server.current_aggregation = Some(AggregationSession { session_id: 3, early: true });
    assert_eq!(server.tick_duty(&at, true, true, 4), TickDuty::AlreadyAggregating);
    server.current_aggregation = Some(AggregationSession { session_id: 2, early: true });
    assert_eq!(server.tick_duty(&at, true, true, 4), TickDuty::Aggregate);
}

#[test]
fn the_next_block_is_built_at_the_end_of_the_slot() {
    let server = server(vec![2], &[], 1);
    let at = tick(5, SlotInterval::EndOfSlot);
    assert_eq!(
        server.tick_duty(&at, false, true, 4),
        TickDuty::Propose { slot: 6, validator_id: 2 }
    );
    assert_eq!(server.tick_duty(&at, false, false, 4), TickDuty::Idle);
    assert_eq!(
        server.tick_duty(&tick(6, SlotInterval::EndOfSlot), false, true, 4),
        TickDuty::Idle
    );
    assert_eq!(
        server.tick_duty(&tick(5, SlotInterval::BlockPublication), false, true, 4),
        TickDuty::Idle
    );
    assert_eq!(
        server.tick_duty(&tick(5, SlotInterval::SafeTargetUpdate), false, true, 4),
        TickDuty::Idle
    );
    assert_eq!(next_key_slot(5), 6);
    assert_eq!(next_key_slot(0xffff_ffff), 0);
}

#[test]
fn attestations_are_delivered_and_published() {
    let mut server = server(vec![2], &[], 1);
    let duty = server.attestation_duty(true, true);
    assert!(duty.self_deliver && !duty.publish);
    server.link_p2p();
    let duty = server.attestation_duty(true, false);
    assert!(!duty.self_deliver && duty.publish);
    let duty = server.attestation_duty(false, true);
    assert!(!duty.self_deliver && !duty.publish);
}

#[test]
fn the_early_window_ends_with_the_aggregation_interval() {
    let mut server = server(vec![2], &[], 1);
    // The aggregation interval of slot 1 begins 5.6 s after genesis.
    assert_eq!(server.early_aggregation_slot(true, 15_399), None);
    assert_eq!(server.early_aggregation_slot(true, 15_400), Some(1));
    assert_eq!(server.early_aggregation_slot(true, 15_599), Some(1));
    assert_eq!(server.early_aggregation_slot(true, 15_600), None);
    assert_eq!(server.early_aggregation_slot(false, 15_500), None);
    assert_eq!(server.early_aggregation_slot(true, 1_500), None);
    server.start_aggregation_session(1, true, 15_500);
    assert_eq!(server.early_aggregation_slot(true, 15_500), None);
    assert_eq!(server.early_aggregation_slot(true, 19_500), Some(2));
}

#[test]
fn the_early_threshold_is_two_thirds_of_the_expected_votes() {
    // Ten validators over four committees: subnets 0 and 1 have three, 2 and 3 have two.
    assert_eq!(server(vec![], &[0], 4).early_threshold(10), 2);
    assert_eq!(server(vec![], &[2], 4).early_threshold(10), 2);
    assert_eq!(server(vec![], &[0, 1], 4).early_threshold(10), 4);
    assert_eq!(server(vec![], &[0, 1, 2, 3], 4).early_threshold(10), 7);
    assert_eq!(server(vec![], &[0, 1, 2, 3, 9], 4).early_threshold(10), 7);
    assert_eq!(server(vec![], &[9], 4).early_threshold(10), 0);
    assert_eq!(server(vec![], &[0], 0).early_threshold(10), 0);
}

#[test]
fn aggregation_starts_early_at_the_threshold() {
    let s = server(vec![], &[0, 1], 4);
    assert!(!s.starts_early(3, 10));
    assert!(s.starts_early(4, 10));
    // Nobody to hear votes from never starts a session.
    assert!(!server(vec![], &[], 4).starts_early(100, 10));
}

#[test]
fn only_votes_for_the_store_slot_can_start_early() {
    let s = server(vec![], &[], 4);
    assert!(s.attestation_may_start_early(3, 17));
    assert!(!s.attestation_may_start_early(4, 17));
    assert!(!s.attestation_may_start_early(2, 17));
}

#[test]
fn sessions_start_early_late_or_not_at_all() {
    let mut s = server(vec![], &[], 1);
    assert!(s.start_aggregation_session(1, false, 15_500).is_none());
    assert!(s.current_aggregation.is_none());

    let start = s.start_aggregation_session(1, true, 15_500).expect("started");
    assert_eq!(start.session_id, 1);
    assert_eq!(start.publish_at_ms, 15_600);
    assert_eq!(start.lead_ms, Some(100));
    assert!(s.session_was_early(1));
    assert!(!s.session_was_early(2));
    assert!(s.is_current_session(1));
    assert!(!s.is_current_session(2));

    let start = s.start_aggregation_session(1, true, 15_600).expect("started");
    assert_eq!(start.lead_ms, None);
    assert!(!s.session_was_early(1));

    assert!(s.start_aggregation_session(2, false, 19_500).is_none());
    assert!(s.current_aggregation.is_none());
    s.start_aggregation_session(1, true, 15_600).expect("started");

    assert_eq!(s.retire_session(), Some(AggregationSession { session_id: 1, early: false }));
    assert_eq!(s.retire_session(), None);
}

#[test]
fn a_proposer_takes_on_one_job() {
    let s = server(vec![2], &[], 1);
    assert_eq!(s.session_job_limit(5, 4, true), 1);
    assert_eq!(s.session_job_limit(5, 4, false), 8);
    assert_eq!(s.session_job_limit(6, 4, true), 8);
}

#[test]
fn only_gossip_is_announced_on_arrival() {
    let s = server(vec![], &[], 1);
    let block = BlockInfo {
        slot: 9,
        root: H256([1; 32]),
        parent_root: H256([2; 32]),
        proposer: 0,
    };
    let plan = s.on_new_block::<u8>(&block, BlockSource::Gossip);
    assert!(plan.import);
    assert!(matches!(
        plan.announce,
        Some(ChainEvent::BlockGossip { slot: 9, block }) if block == H256([1; 32])
    ));
    let plan = s.on_new_block::<u8>(&block, BlockSource::Sync);
    assert!(plan.import);
    assert!(plan.announce.is_none());
}

#[test]
fn lean_messages_are_dropped_on_a_beacon_chain() {
    let mut s = server(vec![], &[], 1);
    assert!(s.handles_lean());
    s.config.chain = Chain::Beacon;
    assert!(!s.handles_lean());
    let block = BlockInfo {
        slot: 9,
        root: H256([1; 32]),
        parent_root: H256([2; 32]),
        proposer: 0,
    };
    assert!(!s.on_new_block::<u8>(&block, BlockSource::Gossip).import);
}

#[test]
fn only_new_blocks_and_accepted_votes_are_announced() {
    let s = server(vec![], &[], 1);
    let block = BlockInfo {
        slot: 9,
        root: H256([1; 32]),
        parent_root: H256([2; 32]),
        proposer: 0,
    };
    assert!(matches!(
        s.import_event::<u8>(&block, false),
        Some(ChainEvent::Block { slot: 9, .. })
    ));
    assert!(s.import_event::<u8>(&block, true).is_none());
    assert!(matches!(
        s.attestation_event(4, "vote", true),
        Some(ChainEvent::Attestation { validator_id: 4, data: "vote" })
    ));
    assert!(s.attestation_event(4, "vote", false).is_none());
    assert!(matches!(
        s.aggregate_event(vec![1, 2], "vote", true),
        Some(ChainEvent::Aggregate { participants, data: "vote" }) if participants == vec![1, 2]
    ));
    assert!(s.aggregate_event(vec![1, 2], "vote", false).is_none());
}

#[test]
fn a_new_block_is_announced_before_its_moves() {
    let s = server(vec![], &[], 1);
    let block = BlockInfo {
        slot: 9,
        root: H256([1; 32]),
        parent_root: H256([2; 32]),
        proposer: 0,
    };
    let new = s.import_announcements::<u8>(&block, true, false);
    assert_eq!(new.len(), 2);
    assert!(matches!(
        &new[0],
        Announcement::Event(ChainEvent::Block { slot: 9, block }) if *block == H256([1; 32])
    ));
    assert!(matches!(&new[1], Announcement::Moves));
    let known = s.import_announcements::<u8>(&block, true, true);
    assert_eq!(known.len(), 1);
    assert!(matches!(&known[0], Announcement::Moves));
    assert!(s.import_announcements::<u8>(&block, false, false).is_empty());
    assert!(s.import_announcements::<u8>(&block, false, true).is_empty());
}

#[test]
fn aggregates_of_another_session_are_dropped() {
    let mut s = server(vec![], &[], 1);
    assert!(s.on_aggregate_produced(3, vec![1], "vote").is_none());
    s.current_aggregation = Some(AggregationSession { session_id: 3, early: false });
    assert!(s.on_aggregate_produced(2, vec![1], "vote").is_none());
    let plan = s.on_aggregate_produced(3, vec![1], "vote").expect("current session");
    assert!(matches!(
        plan.announce,
        ChainEvent::Aggregate { participants, data: "vote" } if participants == vec![1]
    ));
    assert!(!plan.publish);
    s.link_p2p();
    assert!(s.on_aggregate_produced(3, vec![1], "vote").expect("current session").publish);
}

#[test]
fn recovered_aggregates_are_published_by_aggregators() {
    let mut s = server(vec![], &[], 1);
    assert_eq!(s.reaggregated_to_publish(3, true), 0);
    s.link_p2p();
    assert_eq!(s.reaggregated_to_publish(3, true), 3);
    assert_eq!(s.reaggregated_to_publish(3, false), 0);
}

#[test]
fn the_head_stands_in_for_an_empty_live_chain() {
    assert_eq!(max_seen_slot(Some(9), 4), 9);
    assert_eq!(max_seen_slot(None, 4), 4);
}
