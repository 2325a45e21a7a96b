use ethlambda::net::range_sync::{RangeSyncState, MAX_REQUEST_BLOCKS, MAX_SYNC_RANGE};
use ethlambda::primitives::PeerId;

fn peer(n: u8) -> PeerId {
    PeerId::from_parts(0x12, &[n; 32]).expect("a sha-256 id")
}

#[test]
fn range_sync_state_caps_a_batch_at_its_own_limit() {
    let peer = peer(1);
    let state = RangeSyncState::with_max_batch(10..3000, peer, 2999, 128);

    let (selected, batch) = state.next_batch().expect("batch available");

    assert_eq!(selected, peer);
    assert_eq!(batch, 10..138);
}

#[test]
fn range_sync_state_new_keeps_leans_limit() {
    let peer = peer(1);
    let state = RangeSyncState::new(10..30_000, peer, 29_999);

    let (_, batch) = state.next_batch().expect("batch available");

    assert_eq!(batch, 10..(10 + MAX_REQUEST_BLOCKS));
}

#[test]
fn range_sync_state_merges_new_peer_ranges() {
    let first_peer = peer(1);
    let second_peer = peer(2);
    let mut state = RangeSyncState::new(10..101, first_peer, 100);

    state.merge_peer(second_peer, 150, 151);

    assert_eq!(state.current_range, 10..151);
    assert_eq!(state.peer_set.get(&first_peer), Some(&100));
    assert_eq!(state.peer_set.get(&second_peer), Some(&150));
}

#[test]
fn range_sync_state_allows_only_one_batch_in_flight() {
    let first_peer = peer(1);
    let second_peer = peer(2);
    let mut state = RangeSyncState::new(10..3000, first_peer, 500);
    state.merge_peer(second_peer, 2000, 3000);

    let (selected_peer, batch) = state.next_batch().expect("batch available");
    assert_eq!(selected_peer, second_peer);
    assert_eq!(batch, 10..(10 + MAX_REQUEST_BLOCKS));

    state.in_flight = true;
    assert!(state.next_batch().is_none());
}

#[test]
fn range_sync_state_advances_and_drops_stale_peers() {
    let stale_peer = peer(1);
    let current_peer = peer(2);
    let mut state = RangeSyncState::new(10..3000, stale_peer, 100);
    state.merge_peer(current_peer, 2999, 3000);
    state.in_flight = true;

    state.complete_batch(1033);

    assert_eq!(state.current_range, 1034..3000);
    assert!(!state.in_flight);
    assert!(!state.peer_set.contains_key(&stale_peer));
    assert_eq!(state.peer_set.get(&current_peer), Some(&2999));
}

#[test]
fn a_batch_ends_with_the_head_of_its_peer() {
    let state = RangeSyncState::new(10..3000, peer(1), 50);
    assert_eq!(state.next_batch().expect("batch available").1, 10..51);
}

#[test]
fn a_batch_ends_with_the_range() {
    let state = RangeSyncState::new(10..20, peer(1), 5000);
    assert_eq!(state.next_batch().expect("batch available").1, 10..20);
}

#[test]
fn an_empty_range_has_no_batch() {
    let state = RangeSyncState::new(20..20, peer(1), 5000);
    assert!(state.next_batch().is_none());
    assert!(state.is_over());
}

#[test]
fn a_peer_behind_the_range_has_no_batch() {
    let state = RangeSyncState::new(20..30, peer(1), 19);
    assert!(state.next_batch().is_none());
    assert!(!state.is_over());
}

#[test]
fn a_failed_peer_is_dropped_and_the_next_one_is_asked() {
    let mut state = RangeSyncState::new(10..3000, peer(1), 2999);
    state.merge_peer(peer(2), 1500, 1501);
    state.in_flight = true;
    assert_eq!(state.current_range, 10..3000);

    state.fail_peer(&peer(1));

    let (asked, batch) = state.next_batch().expect("batch available");
    assert_eq!(asked, peer(2));
    assert_eq!(batch, 10..1034);
    state.fail_peer(&peer(2));
    assert!(state.is_over());
}

#[test]
fn batches_follow_one_another_to_the_end() {
    let mut state = RangeSyncState::with_max_batch(0..10, peer(1), 9, 4);
    let mut seen = Vec::new();
    while let Some((_, batch)) = state.next_batch() {
        seen.push((batch.start, batch.end));
        state.in_flight = true;
        state.complete_batch(batch.end - 1);
    }
    assert_eq!(seen, vec![(0, 4), (4, 8), (8, 10)]);
    assert!(state.is_over());
}

#[test]
fn the_last_slot_of_all_is_never_passed() {
    let mut state = RangeSyncState::new(u64::MAX - 2..u64::MAX, peer(1), u64::MAX);
    assert_eq!(state.next_batch().expect("batch available").1, u64::MAX - 2..u64::MAX);
    state.complete_batch(u64::MAX);
    assert_eq!(state.current_range.start, u64::MAX);
}

#[test]
fn limits_of_requests_and_sessions() {
    assert_eq!(MAX_REQUEST_BLOCKS, 1024);
    assert_eq!(MAX_SYNC_RANGE, 65_536);
}
