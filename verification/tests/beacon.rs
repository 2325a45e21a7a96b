use ethlambda::chain::beacon::{
    beacon_report, beacon_wall_clock_slot, head_change, tick_moves_head, BeaconBlockInfo,
    BeaconCascade, BeaconCascadeStep, BeaconStep, HeadChange, HeadUpdate, Held,
};
use ethlambda::chain::server::{BlockChainConfig, BlockChainServer, BlockSource, Chain};
use ethlambda::primitives::H256;
use std::collections::HashSet;

fn root(n: u8) -> H256 {
    H256([n; 32])
}

fn server() -> BlockChainServer {
    let mut server = BlockChainServer::new(BlockChainConfig {
        chain: Chain::Beacon,
        genesis_time: 1_000,
        attestation_committee_count: 1,
        subscribed_subnets: HashSet::new(),
        validator_ids: Vec::new(),
        early_window_ms: 200,
        max_aggregation_jobs: 8,
    });
    server.link_p2p();
    server
}

fn info(slot: u64, n: u8) -> BeaconBlockInfo {
    BeaconBlockInfo { slot, root: root(n), parent_root: root(n - 1) }
}

#[test]
fn the_beacon_slot_follows_the_wall_clock() {
    assert_eq!(beacon_wall_clock_slot(999_000, 1_000, 12), 0);
    assert_eq!(beacon_wall_clock_slot(1_011_999, 1_000, 12), 0);
    assert_eq!(beacon_wall_clock_slot(1_012_000, 1_000, 12), 1);
}

#[test]
fn the_head_is_recomputed_when_the_slot_turns() {
    assert!(tick_moves_head(3, 4));
    assert!(!tick_moves_head(4, 4));
    assert!(!tick_moves_head(4, 3));
}

#[test]
fn a_report_counts_epochs_in_slots() {
    let report = beacon_report(100, 2, 3, 95, Some(94));
    assert_eq!(report.wall_clock_slot, 100);
    assert_eq!(report.finalized_slot, 64);
    assert_eq!(report.justified_slot, 96);
    assert_eq!(report.head_slot, 94);
    assert_eq!(report.max_seen_slot, 95);
    assert_eq!(beacon_report(100, 2, 3, 95, None).head_slot, 95);
}

#[test]
fn heads_stay_move_or_reorganise() {
    let update = |previous, reorg_depth| HeadUpdate {
        slot: 9,
        root: root(9),
        previous,
        reorg_depth,
    };
    assert!(matches!(head_change(&update(None, None)), HeadChange::Moved));
    assert!(matches!(head_change(&update(Some((9, root(9))), None)), HeadChange::Unmoved));
    assert!(matches!(head_change(&update(Some((8, root(8))), None)), HeadChange::Moved));
    assert!(matches!(
        head_change(&update(Some((8, root(7))), Some(2))),
        HeadChange::Reorg { depth: 2, previous_slot: 8, previous_root } if previous_root == root(7)
    ));
}

#[test]
fn known_blocks_are_not_imported_again() {
    let server = server();
    assert!(matches!(server.process_or_hold_beacon_block(true, false), BeaconStep::Known));
    assert!(matches!(server.process_or_hold_beacon_block(true, true), BeaconStep::Known));
    assert!(matches!(server.process_or_hold_beacon_block(false, false), BeaconStep::Hold));
    assert!(matches!(server.process_or_hold_beacon_block(false, true), BeaconStep::Import));
}

#[test]
fn what_a_held_block_waits_for_is_requested() {
    let mut server = server();
    assert!(matches!(
        server.on_beacon_held(Held::Buffered(root(4))),
        BeaconStep::Request { root: r } if r == root(4)
    ));
    assert!(matches!(server.on_beacon_held(Held::Full), BeaconStep::CountDropped));
    server.p2p_linked = false;
    assert!(matches!(server.on_beacon_held(Held::Buffered(root(4))), BeaconStep::Done));
}

#[test]
fn only_fetched_blocks_are_counted() {
    let server = server();
    assert!(matches!(
        server.on_beacon_imported(&info(3, 3), BlockSource::Sync, true),
        BeaconStep::Imported { count_fetched: true, release } if release == root(3)
    ));
    assert!(matches!(
        server.on_beacon_imported(&info(3, 3), BlockSource::Gossip, true),
        BeaconStep::Imported { count_fetched: false, .. }
    ));
    assert!(matches!(
        server.on_beacon_imported(&info(3, 3), BlockSource::Sync, false),
        BeaconStep::Done
    ));
}

#[test]
fn a_lagging_clock_is_noticed_in_a_cascade() {
    let server = server();
    assert!(server.clock_lags(1_012_000, 0, 12));
    assert!(!server.clock_lags(1_012_000, 1, 12));
    assert!(!server.clock_lags(1_011_999, 0, 12));
}

#[test]
fn cascades_recompute_the_head_once_per_slot() {
    let mut server = server();
    assert!(server.cascade_moves_head(5));
    assert!(!server.cascade_moves_head(5));
    assert!(server.cascade_moves_head(6));
}

#[test]
fn a_beacon_cascade_takes_blocks_in_turn() {
    let mut cascade = BeaconCascade::new(info(1, 1), "one", BlockSource::Sync);
    assert_eq!(cascade.source(), BlockSource::Sync);
    assert!(matches!(cascade.next(), BeaconCascadeStep::Process(b, "one") if b.slot == 1));
    cascade.enqueue(info(2, 2), "two");
    cascade.enqueue(info(3, 3), "three");
    assert!(matches!(cascade.next(), BeaconCascadeStep::Process(b, "two") if b.slot == 2));
    assert!(matches!(cascade.next(), BeaconCascadeStep::Process(b, "three") if b.slot == 3));
    assert!(matches!(cascade.next(), BeaconCascadeStep::Finish));
}
