//! What holds of every block that is taken up, kept waiting and imported.
use crate::chain::import::{
    after_ancestor_state, after_header, after_parent_state, import_concluded, rejection, taken_up,
    turn_of, CascadeStep, ImportStep, Rejection,
};
use crate::chain::pending::{
    descends, descends_by, lemma_descends_step, missing_ancestor, waiting_for, walk, PendingView,
};
use crate::chain::pending_laws::{law_missing_ancestor_is_not_pending, ranked};
use crate::chain::server::BlockInfo;
use crate::primitives::H256;
use vstd::prelude::*;

verus! {

/// Every block at or below the finalized slot is turned away as finalized, whatever the clock
/// says.
pub proof fn law_finalized_blocks_are_turned_away(slot: int, finalized_slot: int, store_time: int)
    ensures
        slot <= finalized_slot ==> rejection(slot, finalized_slot, store_time) == Some(
            Rejection::Finalized,
        ),
        rejection(slot, finalized_slot, store_time) == Some(Rejection::Finalized) ==> slot
            <= finalized_slot,
{
}

/// A block above the finalized slot is turned away exactly if its slot begins more than one
/// interval after the store's clock, five intervals making a slot.
pub proof fn law_only_early_blocks_are_turned_away(slot: u64, finalized_slot: u64, store_time: u64)
    requires
        slot > finalized_slot,
        store_time < u64::MAX - 1,
    ensures
        5 * slot > store_time + 1 ==> rejection(
            slot as int,
            finalized_slot as int,
            store_time as int,
        ) == Some(Rejection::Future),
        5 * slot <= store_time + 1 ==> rejection(
            slot as int,
            finalized_slot as int,
            store_time as int,
        ) is None,
{
}

/// A block that is turned away leaves nothing of itself pending, nor of what waits under it, and
/// leaves everything else as it was; the step says why.
pub proof fn law_turned_away_blocks_take_their_subtree_along(
    table: PendingView,
    block: BlockInfo,
    finalized_slot: int,
    store_time: int,
    why: Rejection,
    k: H256,
)
    requires
        rejection(block.slot as int, finalized_slot, store_time) == Some(why),
    ensures
        ({
            let (after, step) = taken_up(table, block, finalized_slot, store_time);
            &&& step == ImportStep::Reject(why)
            &&& !after.ancestors.contains_key(block.root)
            &&& !after.children.contains_key(block.root)
            &&& descends(table.children, block.root, k) ==> !after.ancestors.contains_key(k)
                && !after.children.contains_key(k)
            &&& !descends(table.children, block.root, k) ==> after.ancestors.contains_key(k)
                == table.ancestors.contains_key(k) && (table.ancestors.contains_key(k)
                ==> after.ancestors[k] == table.ancestors[k]) && waiting_for(after.children, k)
                == waiting_for(table.children, k)
        }),
{
    assert(descends_by(table.children, block.root, block.root, 0));
    assert(descends(table.children, block.root, block.root));
}

/// A block that is not turned away leaves the table as it is, and its parent's state is looked
/// up.
pub proof fn law_admitted_blocks_are_looked_into(
    table: PendingView,
    block: BlockInfo,
    finalized_slot: u64,
    store_time: u64,
)
    requires
        block.slot > finalized_slot,
        5 * block.slot <= store_time + 1,
        store_time < u64::MAX - 1,
    ensures
        taken_up(table, block, finalized_slot as int, store_time as int) == (
            table,
            ImportStep::CheckParentState,
        ),
{
}

/// A block whose parent's state is known is imported, and the table stays as it is.
pub proof fn law_blocks_with_a_known_parent_are_imported(table: PendingView, block: BlockInfo)
    ensures
        after_parent_state(table, block, true) == (table, ImportStep::Import),
{
}

/// A block whose parent's state is unknown comes to wait for its parent, no other block's waiting
/// changes, and what is looked up next is the ancestor that is missing.
pub proof fn law_blocks_with_an_unknown_parent_wait(
    table: PendingView,
    block: BlockInfo,
    p: H256,
    c: H256,
)
    ensures
        ({
            let (after, step) = after_parent_state(table, block, false);
            &&& waiting_for(after.children, p).contains(c) <==> (waiting_for(
                table.children,
                p,
            ).contains(c) || (p == block.parent_root && c == block.root))
            &&& after.ancestors.contains_key(c) <==> (table.ancestors.contains_key(c) || c
                == block.root)
            &&& c != block.root && table.ancestors.contains_key(c) ==> after.ancestors[c]
                == table.ancestors[c]
            &&& step matches ImportStep::StorePending { missing } && after.ancestors[block.root]
                == missing && missing == missing_ancestor(table.ancestors, block.parent_root)
        }),
{
}

proof fn lemma_walk_is_steady(ancestors: Map<H256, H256>, root: H256, n: nat, m: nat)
    requires
        n <= m,
        !ancestors.contains_key(walk(ancestors, root, n)),
    ensures
        walk(ancestors, root, m) == walk(ancestors, root, n),
    decreases n,
{
    if n > 0 && ancestors.contains_key(root) {
        lemma_walk_is_steady(ancestors, ancestors[root], (n - 1) as nat, (m - 1) as nat);
    }
}

/// The ancestor that is missing is the root itself if nothing is cached for it, and otherwise the
/// one that is missing for the ancestor that is cached, as long as cached ancestors do not run in
/// a circle.
pub proof fn law_missing_ancestor_follows_the_cache(
    ancestors: Map<H256, H256>,
    rank: spec_fn(H256) -> nat,
    root: H256,
)
    requires
        ranked(ancestors, rank),
        ancestors.dom().finite(),
    ensures
        !ancestors.contains_key(root) ==> missing_ancestor(ancestors, root) == root,
        ancestors.contains_key(root) ==> missing_ancestor(ancestors, root) == missing_ancestor(
            ancestors,
            ancestors[root],
        ),
{
    if ancestors.contains_key(root) {
        let n = ancestors.len();
        law_missing_ancestor_is_not_pending(ancestors, rank, root);
        assert(n > 0) by {
            if n == 0 {
                assert(ancestors.dom() =~= Set::empty());
            }
        }
        assert(walk(ancestors, root, n) == walk(ancestors, ancestors[root], (n - 1) as nat));
        lemma_walk_is_steady(ancestors, ancestors[root], (n - 1) as nat, n);
    }
}

/// A header that is there leads to the state of the parent that it names; where there is none,
/// the very block is asked for, if the network side is connected, and otherwise nothing is done.
pub proof fn law_headers_are_followed(missing: H256, parent: H256, linked: bool)
    ensures
        after_header(missing, Some(parent), linked) == (ImportStep::CheckAncestorState {
            missing,
            parent,
        }),
        after_header(missing, None, true) == (ImportStep::Request { root: missing }),
        after_header(missing, None, false) == ImportStep::Done,
{
}

/// A stored block whose parent's state is known is queued, and nothing changes; otherwise it comes
/// to wait for that parent, with the parent cached as missing, and the parent's header is next.
pub proof fn law_stored_ancestors_are_queued_or_wait(
    table: PendingView,
    missing: H256,
    parent: H256,
    p: H256,
    c: H256,
)
    ensures
        after_ancestor_state(table, missing, parent, true) == (
            table,
            ImportStep::EnqueueStored { root: missing },
        ),
        ({
            let (after, step) = after_ancestor_state(table, missing, parent, false);
            &&& step == (ImportStep::ReadHeader { missing: parent })
            &&& after.ancestors.contains_pair(missing, parent)
            &&& waiting_for(after.children, p).contains(c) <==> (waiting_for(
                table.children,
                p,
            ).contains(c) || (p == parent && c == missing))
            &&& c != missing ==> after.ancestors.contains_key(c) == table.ancestors.contains_key(c)
                && (table.ancestors.contains_key(c) ==> after.ancestors[c] == table.ancestors[c])
        }),
{
}

/// A block that the store accepted hands out exactly the blocks that waited for it, none of which
/// is pending any more, and aggregates are recovered exactly if duties are allowed. Blocks that
/// wait for another stay as they are.
pub proof fn law_accepted_blocks_release_their_children(
    table: PendingView,
    block: BlockInfo,
    duties_allowed: bool,
    after: PendingView,
    step: ImportStep,
    p: H256,
    c: H256,
)
    requires
        import_concluded(table, block, true, duties_allowed, after, step),
    ensures
        step matches ImportStep::Imported { reaggregate, children } && {
            &&& reaggregate == duties_allowed
            &&& children@.contains(c) <==> waiting_for(table.children, block.root).contains(c)
            &&& children@.contains(c) ==> !after.ancestors.contains_key(c)
            &&& !children@.contains(c) ==> after.ancestors.contains_key(c)
                == table.ancestors.contains_key(c) && (table.ancestors.contains_key(c)
                ==> after.ancestors[c] == table.ancestors[c])
        },
        waiting_for(after.children, block.root) == Set::<H256>::empty(),
        p != block.root ==> waiting_for(after.children, p) == waiting_for(table.children, p),
{
    assert(step matches ImportStep::Imported { reaggregate, children } && children@.to_set().contains(
        c,
    ) == children@.contains(c));
}

/// A block that the store refused changes nothing, and nothing follows.
pub proof fn law_refused_blocks_change_nothing(
    table: PendingView,
    block: BlockInfo,
    duties_allowed: bool,
    after: PendingView,
    step: ImportStep,
)
    requires
        import_concluded(table, block, false, duties_allowed, after, step),
    ensures
        after == table,
        step == ImportStep::Done,
{
}

/// The subtree of a block is the least set that holds the block and, with each of its members,
/// what waits for it.
pub proof fn law_subtrees_are_closed_under_waiting(
    children: Map<H256, Set<H256>>,
    root: H256,
    p: H256,
    c: H256,
    other: Set<H256>,
)
    requires
        other.contains(root),
        forall|a: H256, b: H256|
            other.contains(a) && #[trigger] waiting_for(children, a).contains(b) ==> other.contains(
                b,
            ),
    ensures
        descends(children, root, root),
        descends(children, root, p) && waiting_for(children, p).contains(c) ==> descends(
            children,
            root,
            c,
        ),
        descends(children, root, p) ==> other.contains(p),
{
    assert(descends_by(children, root, root, 0));
    if descends(children, root, p) && waiting_for(children, p).contains(c) {
        lemma_descends_step(children, root, p, c);
    }
    if descends(children, root, p) {
        let n = choose|n: nat| descends_by(children, root, p, n);
        lemma_least(children, root, p, other, n);
    }
}

proof fn lemma_least(
    children: Map<H256, Set<H256>>,
    root: H256,
    p: H256,
    other: Set<H256>,
    n: nat,
)
    requires
        other.contains(root),
        forall|a: H256, b: H256|
            other.contains(a) && #[trigger] waiting_for(children, a).contains(b) ==> other.contains(
                b,
            ),
        descends_by(children, root, p, n),
    ensures
        other.contains(p),
    decreases n,
{
    if n > 0 {
        let mid = choose|mid: H256|
            descends_by(children, root, mid, (n - 1) as nat) && #[trigger] waiting_for(
                children,
                mid,
            ).contains(p);
        lemma_least(children, root, mid, other, (n - 1) as nat);
    }
}

/// What waits for a parent is what the table holds for it, and nothing where it holds nothing.
pub proof fn law_waiting_is_what_the_table_holds(children: Map<H256, Set<H256>>, p: H256)
    ensures
        children.contains_key(p) ==> waiting_for(children, p) == children[p],
        !children.contains_key(p) ==> waiting_for(children, p) == Set::<H256>::empty(),
{
}

/// The blocks of a cascade have their turns in the order in which they were queued, and old states
/// are pruned once there is none.
pub proof fn law_queued_blocks_have_their_turns_in_order<B>(
    first: (BlockInfo, B),
    rest: Seq<(BlockInfo, B)>,
    next: (BlockInfo, B),
)
    ensures
        turn_of(seq![first] + rest) == (CascadeStep::Process(first.0, first.1), rest),
        turn_of((seq![first] + rest).push(next)) == (
            CascadeStep::Process(first.0, first.1),
            rest.push(next),
        ),
        turn_of(Seq::<(BlockInfo, B)>::empty()) == (
            CascadeStep::<B>::Prune,
            Seq::<(BlockInfo, B)>::empty(),
        ),
{
    assert((seq![first] + rest).skip(1) =~= rest);
    assert((seq![first] + rest).push(next).skip(1) =~= rest.push(next));
}

} // verus!
