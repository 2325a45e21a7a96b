//! What every use of the pending table keeps.
use crate::chain::pending::{
    descends, descends_by, lemma_descendant_waits, lemma_descends_step, missing_ancestor,
    waiting_for, walk, PendingView,
};
use crate::primitives::H256;
use vstd::prelude::*;

verus! {

/// Whether `rank` falls along every cached ancestor, as block height does along parent links.
pub open spec fn ranked(ancestors: Map<H256, H256>, rank: spec_fn(H256) -> nat) -> bool {
    forall|k: H256| #[trigger]
        ancestors.contains_key(k) ==> rank(ancestors[k]) < rank(k)
}

/// The block `n` parent links above `root`.
pub open spec fn forebear(parent_of: spec_fn(H256) -> H256, root: H256, n: nat) -> H256
    decreases n,
{
    if n == 0 {
        root
    } else {
        parent_of(forebear(parent_of, root, (n - 1) as nat))
    }
}

/// Whether `above` is a proper ancestor of `root`.
pub open spec fn is_forebear(parent_of: spec_fn(H256) -> H256, root: H256, above: H256) -> bool {
    exists|n: nat| n > 0 && #[trigger] forebear(parent_of, root, n) == above
}

/// Whether the table agrees with the parent links of the blocks: each block waits for its own
/// parent, only waiting blocks have a cached ancestor, and what is cached is an ancestor.
pub open spec fn follows_parents(table: PendingView, parent_of: spec_fn(H256) -> H256) -> bool {
    &&& forall|p: H256, c: H256| #[trigger]
        waiting_for(table.children, p).contains(c) ==> parent_of(c) == p
    &&& forall|c: H256| #[trigger]
        table.ancestors.contains_key(c) ==> waiting_for(table.children, parent_of(c)).contains(c)
    &&& forall|c: H256| #[trigger]
        table.ancestors.contains_key(c) ==> is_forebear(parent_of, c, table.ancestors[c])
}

/// Whether `c` has a cached ancestor if it waits for a parent.
pub open spec fn is_recorded(table: PendingView, c: H256) -> bool {
    (exists|p: H256| #[trigger] waiting_for(table.children, p).contains(c))
        ==> table.ancestors.contains_key(c)
}

proof fn lemma_walk_in_keys(
    ancestors: Map<H256, H256>,
    rank: spec_fn(H256) -> nat,
    root: H256,
    steps: nat,
)
    requires
        ranked(ancestors, rank),
        ancestors.dom().finite(),
        ancestors.contains_key(walk(ancestors, root, steps)),
    ensures
        ancestors.dom().filter(|k: H256| rank(k) <= rank(root)).len() > steps,
    decreases steps,
{
    let low = ancestors.dom().filter(|k: H256| rank(k) <= rank(root));
    ancestors.dom().lemma_len_filter(|k: H256| rank(k) <= rank(root));
    assert(ancestors.contains_key(root));
    assert(low.contains(root));
    if steps == 0 {
        assert(low.len() > 0) by {
            if low.len() == 0 {
                assert(low =~= Set::empty());
            }
        }
    } else {
        let next = ancestors[root];
        lemma_walk_in_keys(ancestors, rank, next, (steps - 1) as nat);
        let lower = ancestors.dom().filter(|k: H256| rank(k) <= rank(next));
        ancestors.dom().lemma_len_filter(|k: H256| rank(k) <= rank(next));
        assert(lower.subset_of(low.remove(root)));
        vstd::set_lib::lemma_len_subset(lower, low.remove(root));
    }
}

/// The walk along cached ancestors ends at a root that has none cached, as long as cached
/// ancestors do not run in a circle: what gets requested is really missing from the table.
pub proof fn law_missing_ancestor_is_not_pending(
    ancestors: Map<H256, H256>,
    rank: spec_fn(H256) -> nat,
    root: H256,
)
    requires
        ranked(ancestors, rank),
        ancestors.dom().finite(),
    ensures
        !ancestors.contains_key(missing_ancestor(ancestors, root)),
        rank(missing_ancestor(ancestors, root)) <= rank(root),
{
    let end = missing_ancestor(ancestors, root);
    lemma_walk_rank(ancestors, rank, root, ancestors.len());
    if ancestors.contains_key(end) {
        lemma_walk_in_keys(ancestors, rank, root, ancestors.len());
        ancestors.dom().lemma_len_filter(|k: H256| rank(k) <= rank(root));
    }
}

proof fn lemma_walk_rank(
    ancestors: Map<H256, H256>,
    rank: spec_fn(H256) -> nat,
    root: H256,
    steps: nat,
)
    requires
        ranked(ancestors, rank),
    ensures
        rank(walk(ancestors, root, steps)) <= rank(root),
    decreases steps,
{
    if steps > 0 && ancestors.contains_key(root) {
        lemma_walk_rank(ancestors, rank, ancestors[root], (steps - 1) as nat);
    }
}

/// Recording a block that ranks above its parent keeps cached ancestors free of circles.
pub proof fn law_pending_a_block_keeps_the_ranking(
    table: PendingView,
    rank: spec_fn(H256) -> nat,
    block: H256,
    parent: H256,
)
    requires
        ranked(table.ancestors, rank),
        rank(parent) < rank(block),
    ensures
        ranked(table.pended(block, parent).ancestors, rank),
        ranked(table.linked(block, parent, parent).ancestors, rank),
{
    lemma_walk_rank(table.ancestors, rank, parent, table.ancestors.len());
}

proof fn lemma_forebear_add(
    parent_of: spec_fn(H256) -> H256,
    root: H256,
    n: nat,
    m: nat,
)
    ensures
        forebear(parent_of, forebear(parent_of, root, n), m) == forebear(parent_of, root, n + m),
    decreases m,
{
    if m > 0 {
        lemma_forebear_add(parent_of, root, n, (m - 1) as nat);
        assert((n + m - 1) as nat == n + (m - 1) as nat);
    }
}

proof fn lemma_walk_is_forebear(
    table: PendingView,
    parent_of: spec_fn(H256) -> H256,
    block: H256,
    at: H256,
    steps: nat,
)
    requires
        follows_parents(table, parent_of),
        is_forebear(parent_of, block, at),
    ensures
        is_forebear(parent_of, block, walk(table.ancestors, at, steps)),
    decreases steps,
{
    if steps > 0 && table.ancestors.contains_key(at) {
        let next = table.ancestors[at];
        let n = choose|n: nat| n > 0 && #[trigger] forebear(parent_of, block, n) == at;
        let m = choose|m: nat| m > 0 && #[trigger] forebear(parent_of, at, m) == next;
        lemma_forebear_add(parent_of, block, n, m);
        assert(forebear(parent_of, block, n + m) == next);
        lemma_walk_is_forebear(table, parent_of, block, next, (steps - 1) as nat);
    }
}

/// Recording a block under its own parent keeps the table in agreement with the parent links,
/// whether its missing ancestor is found by the walk or is its own parent.
pub proof fn law_recording_follows_parents(
    table: PendingView,
    parent_of: spec_fn(H256) -> H256,
    block: H256,
)
    requires
        follows_parents(table, parent_of),
    ensures
        follows_parents(table.pended(block, parent_of(block)), parent_of),
        follows_parents(table.linked(block, parent_of(block), parent_of(block)), parent_of),
{
    let parent = parent_of(block);
    assert(forebear(parent_of, block, 0) == block);
    assert(forebear(parent_of, block, 1) == parent);
    assert(is_forebear(parent_of, block, parent));
    lemma_walk_is_forebear(table, parent_of, block, parent, table.ancestors.len());
    lemma_linked_follows(table, parent_of, block, missing_ancestor(table.ancestors, parent));
    lemma_linked_follows(table, parent_of, block, parent);
}

proof fn lemma_linked_follows(
    table: PendingView,
    parent_of: spec_fn(H256) -> H256,
    block: H256,
    missing: H256,
)
    requires
        follows_parents(table, parent_of),
        is_forebear(parent_of, block, missing),
    ensures
        follows_parents(table.linked(block, parent_of(block), missing), parent_of),
{
    let parent = parent_of(block);
    let after = table.linked(block, parent, missing);
    assert forall|p: H256, c: H256| #[trigger]
        waiting_for(after.children, p).contains(c) <==> (waiting_for(table.children, p).contains(c)
        || (p == parent && c == block)) by {}
    assert forall|c: H256| #[trigger] after.ancestors.contains_key(c) implies waiting_for(
        after.children,
        parent_of(c),
    ).contains(c) by {
        if c != block {
            assert(table.ancestors.contains_key(c));
        }
    }
    assert forall|c: H256| #[trigger] after.ancestors.contains_key(c) implies is_forebear(
        parent_of,
        c,
        after.ancestors[c],
    ) by {
        if c != block {
            assert(table.ancestors.contains_key(c));
        }
    }
}

/// Releasing the children of a block keeps the table in agreement with the parent links.
pub proof fn law_releasing_follows_parents(
    table: PendingView,
    parent_of: spec_fn(H256) -> H256,
    parent: H256,
)
    requires
        follows_parents(table, parent_of),
    ensures
        follows_parents(table.released(parent), parent_of),
{
    let after = table.released(parent);
    assert forall|p: H256, c: H256| #[trigger]
        waiting_for(after.children, p).contains(c) <==> (p != parent && waiting_for(
            table.children,
            p,
        ).contains(c)) by {}
    assert forall|c: H256| #[trigger] after.ancestors.contains_key(c) <==> (
    table.ancestors.contains_key(c) && !waiting_for(table.children, parent).contains(c)) by {}
}

/// Forgetting a block and what waits under it keeps the table in agreement with the parent links.
pub proof fn law_discarding_follows_parents(
    table: PendingView,
    parent_of: spec_fn(H256) -> H256,
    root: H256,
)
    requires
        follows_parents(table, parent_of),
    ensures
        follows_parents(table.discarded(root), parent_of),
{
    let after = table.discarded(root);
    assert forall|p: H256, c: H256| #[trigger]
        waiting_for(after.children, p).contains(c) <==> (!descends(table.children, root, p)
        && waiting_for(table.children, p).contains(c)) by {}
    assert forall|c: H256| #[trigger] after.ancestors.contains_key(c) implies waiting_for(
        after.children,
        parent_of(c),
    ).contains(c) by {
        assert(table.ancestors.contains_key(c));
        if descends(table.children, root, parent_of(c)) {
            lemma_descends_step(table.children, root, parent_of(c), c);
        }
    }
    assert forall|c: H256| #[trigger] after.ancestors.contains_key(c) implies is_forebear(
        parent_of,
        c,
        after.ancestors[c],
    ) by {
        assert(table.ancestors.contains_key(c));
    }
}

/// Every waiting block keeps its cached ancestor: recording a block gives it one, releasing takes
/// it from released blocks alone, and discarding from discarded blocks alone. The one block that
/// can wait without one is a discarded block whose own parent is still awaited.
pub proof fn law_waiting_blocks_stay_recorded(
    table: PendingView,
    parent_of: spec_fn(H256) -> H256,
    block: H256,
    c: H256,
)
    requires
        follows_parents(table, parent_of),
        is_recorded(table, c),
    ensures
        is_recorded(table.pended(block, parent_of(block)), c),
        is_recorded(table.linked(block, parent_of(block), parent_of(block)), c),
        is_recorded(table.released(block), c),
        c != block ==> is_recorded(table.discarded(block), c),
{
    let parent = parent_of(block);
    lemma_linked_records(table, block, parent, missing_ancestor(table.ancestors, parent), c);
    lemma_linked_records(table, block, parent, parent, c);
    let released = table.released(block);
    if exists|p: H256| #[trigger] waiting_for(released.children, p).contains(c) {
        let p = choose|p: H256| #[trigger] waiting_for(released.children, p).contains(c);
        assert(waiting_for(table.children, p).contains(c));
        assert(parent_of(c) == p);
    }
    let discarded = table.discarded(block);
    if c != block && (exists|p: H256| #[trigger] waiting_for(discarded.children, p).contains(c)) {
        let p = choose|p: H256| #[trigger] waiting_for(discarded.children, p).contains(c);
        assert(waiting_for(table.children, p).contains(c));
        if descends(table.children, block, c) {
            lemma_descendant_waits(table.children, block, c);
            let mid = choose|mid: H256|
                descends(table.children, block, mid) && #[trigger] waiting_for(
                    table.children,
                    mid,
                ).contains(c);
            assert(parent_of(c) == mid && parent_of(c) == p);
        }
    }
}

proof fn lemma_linked_records(
    table: PendingView,
    block: H256,
    parent: H256,
    missing: H256,
    c: H256,
)
    requires
        is_recorded(table, c),
    ensures
        is_recorded(table.linked(block, parent, missing), c),
{
    let after = table.linked(block, parent, missing);
    if c != block && (exists|p: H256| #[trigger] waiting_for(after.children, p).contains(c)) {
        let p = choose|p: H256| #[trigger] waiting_for(after.children, p).contains(c);
        assert(waiting_for(table.children, p).contains(c));
    }
}

/// After a block was discarded, neither it nor anything that waited under it is recorded as
/// waiting for an ancestor, and nothing is recorded as waiting for one of them.
pub proof fn law_discard_leaves_nothing_of_the_subtree(table: PendingView, root: H256, k: H256)
    ensures
        descends(table.children, root, root),
        descends(table.children, root, k) ==> !table.discarded(root).ancestors.contains_key(k),
        descends(table.children, root, k) ==> !table.discarded(root).children.contains_key(k),
{
    assert(descends_by(table.children, root, root, 0));
}

/// What is not in the subtree of a block stays recorded as it was when the block is discarded.
pub proof fn law_discard_spares_the_rest(table: PendingView, root: H256, k: H256)
    requires
        !descends(table.children, root, k),
    ensures
        table.discarded(root).children.contains_key(k) == table.children.contains_key(k),
        waiting_for(table.discarded(root).children, k) == waiting_for(table.children, k),
        table.discarded(root).ancestors.contains_key(k) == table.ancestors.contains_key(k),
        table.ancestors.contains_key(k) ==> table.discarded(root).ancestors[k]
            == table.ancestors[k],
{
}

/// The table once the children of each block of a list were released in turn.
pub open spec fn released_in_turn(table: PendingView, blocks: Seq<H256>) -> PendingView
    decreases blocks.len(),
{
    if blocks.len() == 0 {
        table
    } else {
        released_in_turn(table, blocks.drop_last()).released(blocks.last())
    }
}

proof fn lemma_others_stay_waiting(table: PendingView, blocks: Seq<H256>, parent: H256)
    requires
        !blocks.contains(parent),
    ensures
        waiting_for(released_in_turn(table, blocks).children, parent) == waiting_for(
            table.children,
            parent,
        ),
    decreases blocks.len(),
{
    if blocks.len() > 0 {
        assert(blocks.contains(blocks.last()));
        assert(!blocks.drop_last().contains(parent)) by {
            if blocks.drop_last().contains(parent) {
                let i = blocks.drop_last().index_of(parent);
                assert(blocks[i] == parent);
            }
        }
        lemma_others_stay_waiting(table, blocks.drop_last(), parent);
    }
}

/// The arrival of a missing ancestor releases a whole branch, however deep: where each block of
/// a list waits for the one before it, importing them in turn hands out the next each time.
pub proof fn law_a_branch_is_released_to_its_end(table: PendingView, branch: Seq<H256>, i: int)
    requires
        branch.no_duplicates(),
        0 <= i < branch.len() - 1,
        waiting_for(table.children, branch[i]).contains(branch[i + 1]),
    ensures
        waiting_for(released_in_turn(table, branch.take(i)).children, branch[i]).contains(
            branch[i + 1],
        ),
        !released_in_turn(table, branch.take(i + 1)).ancestors.contains_key(branch[i + 1]),
{
    assert(!branch.take(i).contains(branch[i])) by {
        if branch.take(i).contains(branch[i]) {
            let j = branch.take(i).index_of(branch[i]);
            assert(branch[j] == branch[i]);
        }
    }
    lemma_others_stay_waiting(table, branch.take(i), branch[i]);
    assert(branch.take(i + 1).drop_last() =~= branch.take(i));
    assert(branch.take(i + 1).last() == branch[i]);
}

/// A block that was recorded and whose parent arrives is handed out again: the release of a
/// parent covers every block recorded as waiting for it.
pub proof fn law_recorded_block_is_released_with_its_parent(
    table: PendingView,
    block: H256,
    parent: H256,
)
    ensures
        waiting_for(table.pended(block, parent).children, parent).contains(block),
        !table.pended(block, parent).released(parent).ancestors.contains_key(block),
{
}

} // verus!
