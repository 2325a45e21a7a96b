use ethlambda::chain::import::{BlockCascade, CascadeStep, ImportStep, Rejection};
use ethlambda::chain::server::{BlockChainConfig, BlockChainServer, BlockInfo, Chain};
use ethlambda::primitives::H256;
use std::collections::HashSet;

fn root(n: u8) -> H256 {
    H256([n; 32])
}

fn block(slot: u64, this: u8, parent: u8) -> BlockInfo {
    BlockInfo { slot, root: root(this), parent_root: root(parent), proposer: 0 }
}

fn server() -> BlockChainServer {
    let mut server = BlockChainServer::new(BlockChainConfig {
        chain: Chain::Lean,
        genesis_time: 1_000,
        attestation_committee_count: 1,
        subscribed_subnets: HashSet::new(),
        validator_ids: Vec::new(),
        early_window_ms: 200,
        max_aggregation_jobs: 8,
    });
    server.link_p2p();
    server
}

#[test]
fn finalized_blocks_are_turned_away() {
    let mut server = server();
    server.on_parent_state(&block(6, 6, 5), false);
    let step = server.process_or_pend_block(&block(5, 5, 4), 5, 100);
    assert!(matches!(step, ImportStep::Reject(Rejection::Finalized)));
    assert!(!server.pending.is_pending(&root(6)));
}

#[test]
fn blocks_are_admitted_one_interval_before_their_slot() {
    let mut server = server();
    // Slot 10 begins with interval 50.
    let step = server.process_or_pend_block(&block(10, 1, 2), 0, 49);
    assert!(matches!(step, ImportStep::CheckParentState));
    let step = server.process_or_pend_block(&block(10, 1, 2), 0, 48);
    assert!(matches!(step, ImportStep::Reject(Rejection::Future)));
    let step = server.process_or_pend_block(&block(u64::MAX, 1, 2), 0, 48);
    assert!(matches!(step, ImportStep::Reject(Rejection::Future)));
}

#[test]
fn a_block_whose_parent_is_known_is_imported_and_releases_its_children() {
    let mut server = server();
    server.on_parent_state(&block(3, 3, 2), false);
    assert!(matches!(server.on_parent_state(&block(2, 2, 1), true), ImportStep::Import));
    match server.on_imported(&block(2, 2, 1), true, true) {
        ImportStep::Imported { reaggregate, children } => {
            assert!(reaggregate);
            assert_eq!(children, vec![root(3)]);
        }
        other => panic!("unexpected {other:?}"),
    }
    assert!(!server.pending.is_pending(&root(3)));
}

#[test]
fn a_syncing_node_does_not_reaggregate() {
    let mut server = server();
    match server.on_imported(&block(2, 2, 1), true, false) {
        ImportStep::Imported { reaggregate, children } => {
            assert!(!reaggregate);
            assert!(children.is_empty());
        }
        other => panic!("unexpected {other:?}"),
    }
}

#[test]
fn a_block_that_fails_keeps_its_children_waiting() {
    let mut server = server();
    server.on_parent_state(&block(3, 3, 2), false);
    assert!(matches!(server.on_imported(&block(2, 2, 1), false, true), ImportStep::Done));
    assert!(server.pending.is_pending(&root(3)));
}

#[test]
fn the_first_ancestor_that_is_nowhere_is_requested() {
    let mut server = server();
    let missing = match server.on_parent_state(&block(9, 9, 8), false) {
        ImportStep::StorePending { missing } => missing,
        other => panic!("unexpected {other:?}"),
    };
    assert_eq!(missing, root(8));
    // 8 is stored and names 7; the state of 7 is not known; 7 is not stored.
    match server.on_ancestor_header(missing, Some(root(7))) {
        ImportStep::CheckAncestorState { missing, parent } => {
            assert_eq!((missing, parent), (root(8), root(7)));
        }
        other => panic!("unexpected {other:?}"),
    }
    match server.on_ancestor_state(root(8), root(7), false) {
        ImportStep::ReadHeader { missing } => assert_eq!(missing, root(7)),
        other => panic!("unexpected {other:?}"),
    }
    match server.on_ancestor_header(root(7), None) {
        ImportStep::Request { root: wanted } => assert_eq!(wanted, root(7)),
        other => panic!("unexpected {other:?}"),
    }
    assert!(server.pending.is_pending(&root(8)));
    assert_eq!(server.pending.resolve_missing(&root(9)), root(7));
}

#[test]
fn a_stored_ancestor_that_can_be_imported_is_queued() {
    let mut server = server();
    server.on_parent_state(&block(9, 9, 8), false);
    match server.on_ancestor_state(root(8), root(7), true) {
        ImportStep::EnqueueStored { root: stored } => assert_eq!(stored, root(8)),
        other => panic!("unexpected {other:?}"),
    }
    assert!(!server.pending.is_pending(&root(8)));
}

#[test]
fn nothing_is_requested_without_a_network() {
    let mut server = server();
    server.p2p_linked = false;
    assert!(matches!(server.on_ancestor_header(root(7), None), ImportStep::Done));
    assert!(matches!(server.request_missing_block(root(7)), ImportStep::Done));
}

#[test]
fn a_cascade_takes_blocks_in_turn_and_prunes_at_the_end() {
    let mut cascade = BlockCascade::new(block(1, 1, 0), "one");
    cascade.enqueue(block(2, 2, 1), "two");
    assert!(matches!(cascade.next(), CascadeStep::Process(b, "one") if b.slot == 1));
    cascade.enqueue(block(3, 3, 2), "three");
    assert!(matches!(cascade.next(), CascadeStep::Process(b, "two") if b.slot == 2));
    assert!(matches!(cascade.next(), CascadeStep::Process(b, "three") if b.slot == 3));
    assert!(matches!(cascade.next(), CascadeStep::Prune));
    assert!(matches!(cascade.next(), CascadeStep::Prune));
}
