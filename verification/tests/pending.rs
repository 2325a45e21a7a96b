use ethlambda::chain::pending::PendingBlocks;
use ethlambda::primitives::H256;

fn root(n: u8) -> H256 {
    H256([n; 32])
}

#[test]
fn the_missing_ancestor_is_found_through_pending_blocks() {
    let mut pending = PendingBlocks::new();
    // 3 waits for 2, then 2 arrives and waits for 1.
    assert_eq!(pending.pend(root(3), root(2)), root(2));
    assert_eq!(pending.pend(root(2), root(1)), root(1));
    // 4 waits for 3, which leads over 2 to 1.
    assert_eq!(pending.pend(root(4), root(3)), root(1));
    assert_eq!(pending.resolve_missing(&root(9)), root(9));
    assert_eq!(pending.len(), 3);
}

#[test]
fn children_are_released_once() {
    let mut pending = PendingBlocks::new();
    pending.pend(root(2), root(1));
    pending.pend(root(3), root(1));
    pending.pend(root(3), root(1));
    let children = pending.take_children(&root(1));
    assert_eq!(children.len(), 2);
    assert!(children.contains(&root(2)));
    assert!(children.contains(&root(3)));
    assert!(!pending.is_pending(&root(2)));
    assert!(pending.take_children(&root(1)).is_empty());
}

#[test]
fn a_discarded_block_takes_its_descendants_with_it() {
    let mut pending = PendingBlocks::new();
    pending.pend(root(2), root(1));
    pending.pend(root(3), root(2));
    pending.pend(root(4), root(2));
    pending.pend(root(5), root(4));
    pending.pend(root(7), root(6));

    pending.discard_subtree(&root(2));

    assert!(!pending.is_pending(&root(2)));
    assert!(!pending.is_pending(&root(3)));
    assert!(!pending.is_pending(&root(4)));
    assert!(!pending.is_pending(&root(5)));
    assert!(pending.is_pending(&root(7)));
    assert!(pending.take_children(&root(4)).is_empty());
    assert_eq!(pending.take_children(&root(1)), vec![root(2)]);
}

#[test]
fn discarding_a_block_nobody_waits_for_changes_nothing() {
    let mut pending = PendingBlocks::new();
    pending.pend(root(2), root(1));
    pending.discard_subtree(&root(9));
    assert!(pending.is_pending(&root(2)));
    assert_eq!(pending.len(), 1);
}

#[test]
fn blocks_that_wait_in_a_circle_are_still_discarded() {
    let mut pending = PendingBlocks::new();
    pending.link(root(1), root(2), root(2));
    pending.link(root(2), root(1), root(1));
    pending.resolve_missing(&root(1));
    pending.discard_subtree(&root(1));
    assert_eq!(pending.len(), 0);
}

#[test]
fn a_branch_is_released_block_by_block() {
    let mut pending = PendingBlocks::new();
    // The youngest comes first.
    for n in (2..=5u8).rev() {
        pending.pend(root(n), root(n - 1));
    }
    assert_eq!(pending.resolve_missing(&root(5)), root(1));
    for n in 1..=4u8 {
        assert_eq!(pending.take_children(&root(n)), vec![root(n + 1)]);
        assert!(!pending.is_pending(&root(n + 1)));
    }
    assert_eq!(pending.len(), 0);
}
