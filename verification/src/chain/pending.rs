//! Blocks that wait for a parent whose state is not known yet.
use crate::keyed::{KeyMap, KeySet};
use crate::primitives::H256;
use vstd::prelude::*;

verus! {

/// What is pending: which roots wait for which parent, and for each waiting root the ancestor
/// that was missing when it was recorded.
#[verifier::ext_equal]
pub struct PendingView {
    /// The roots that wait for each parent.
    pub children: Map<H256, Set<H256>>,
    /// The missing ancestor cached for each waiting root.
    pub ancestors: Map<H256, H256>,
}

/// The roots recorded as waiting for `parent`.
pub open spec fn waiting_for(children: Map<H256, Set<H256>>, parent: H256) -> Set<H256> {
    if children.contains_key(parent) {
        children[parent]
    } else {
        Set::empty()
    }
}

/// Where a walk along cached ancestors stands after at most `steps` steps from `root`.
pub open spec fn walk(ancestors: Map<H256, H256>, root: H256, steps: nat) -> H256
    decreases steps,
{
    if steps == 0 || !ancestors.contains_key(root) {
        root
    } else {
        walk(ancestors, ancestors[root], (steps - 1) as nat)
    }
}

/// Where the walk along cached ancestors from `root` ends.
pub open spec fn missing_ancestor(ancestors: Map<H256, H256>, root: H256) -> H256 {
    walk(ancestors, root, ancestors.len())
}

/// Whether `n` steps from parent to waiting child lead from `from` to `to`.
pub open spec fn descends_by(
    children: Map<H256, Set<H256>>,
    from: H256,
    to: H256,
    n: nat,
) -> bool
    decreases n,
{
    if n == 0 {
        from == to
    } else {
        exists|mid: H256|
            descends_by(children, from, mid, (n - 1) as nat) && #[trigger] waiting_for(
                children,
                mid,
            ).contains(to)
    }
}

/// Whether `to` is `from` or one of the blocks that wait, however indirectly, for `from`.
pub open spec fn descends(children: Map<H256, Set<H256>>, from: H256, to: H256) -> bool {
    exists|n: nat| descends_by(children, from, to, n)
}

impl PendingView {
    /// With `block` recorded as waiting for `parent`, and `missing` as its missing ancestor.
    pub open spec fn linked(self, block: H256, parent: H256, missing: H256) -> PendingView {
        PendingView {
            children: self.children.insert(
                parent,
                waiting_for(self.children, parent).insert(block),
            ),
            ancestors: self.ancestors.insert(block, missing),
        }
    }

    /// With `block` recorded as waiting for `parent`, its missing ancestor found by the walk
    /// from its parent.
    pub open spec fn pended(self, block: H256, parent: H256) -> PendingView {
        self.linked(block, parent, missing_ancestor(self.ancestors, parent))
    }

    /// With the blocks that wait for `parent` released.
    pub open spec fn released(self, parent: H256) -> PendingView {
        PendingView {
            children: self.children.remove(parent),
            ancestors: self.ancestors.remove_keys(waiting_for(self.children, parent)),
        }
    }

    /// With `root` and everything that waits under it forgotten: neither is any of them recorded
    /// as waiting for an ancestor, nor is anything recorded as waiting for one of them.
    pub open spec fn discarded(self, root: H256) -> PendingView {
        PendingView {
            children: self.children.remove_keys(
                Set::new(|k: H256| descends(self.children, root, k)),
            ),
            ancestors: self.ancestors.remove_keys(
                Set::new(|k: H256| descends(self.children, root, k)),
            ),
        }
    }
}

/// The pending table.
pub struct PendingBlocks {
    children: KeyMap<H256, KeySet<H256>>,
    ancestors: KeyMap<H256, H256>,
}

/// The sets that the values of a map stand for.
pub open spec fn set_views(children: Map<H256, KeySet<H256>>) -> Map<H256, Set<H256>> {
    children.map_values(|s: KeySet<H256>| s@)
}

impl View for PendingBlocks {
    type V = PendingView;

    closed spec fn view(&self) -> PendingView {
        PendingView { children: set_views(self.children@), ancestors: self.ancestors@ }
    }
}

impl PendingBlocks {
    /// An empty table.
    pub fn new() -> (res: PendingBlocks)
        ensures
            res@.children == Map::<H256, Set<H256>>::empty(),
            res@.ancestors == Map::<H256, H256>::empty(),
    {
        let res = PendingBlocks { children: KeyMap::new(), ancestors: KeyMap::new() };
        assert(res@.children =~= Map::<H256, Set<H256>>::empty());
        res
    }

    /// Whether `root` is recorded as waiting for an ancestor.
    pub fn is_pending(&self, root: &H256) -> (res: bool)
        ensures
            res == self@.ancestors.contains_key(*root),
    {
        self.ancestors.contains_key(root)
    }

    /// How many roots are recorded as waiting for an ancestor.
    pub fn len(&self) -> (res: usize)
        ensures
            res == self@.ancestors.len(),
            self@.ancestors.dom().finite(),
    {
        self.ancestors.len()
    }

    /// The ancestor of `root` that is really missing: the end of the walk along cached
    /// ancestors. An ancestor that was cached as missing may since have become pending itself,
    /// behind a deeper one. The walk takes at most as many steps as there are cached ancestors.
    pub fn resolve_missing(&self, root: &H256) -> (res: H256)
        ensures
            res == missing_ancestor(self@.ancestors, *root),
    {
        let mut at: H256 = *root;
        let total: usize = self.ancestors.len();
        let mut steps: usize = 0;
        while steps < total
            invariant
                steps <= total,
                total == self.ancestors@.len(),
                walk(self.ancestors@, *root, total as nat) == walk(
                    self.ancestors@,
                    at,
                    (total - steps) as nat,
                ),
            decreases total - steps,
        {
            match self.ancestors.get(&at) {
                None => {
                    assert(walk(self.ancestors@, at, (total - steps) as nat) == at);
                    return at;
                },
                Some(next) => {
                    at = *next;
                },
            }
            steps = steps + 1;
        }
        at
    }

    /// Records `block` as waiting for `parent`, with `missing` as its missing ancestor.
    pub fn link(&mut self, block: H256, parent: H256, missing: H256)
        ensures
            final(self)@ == old(self)@.linked(block, parent, missing),
    {
        self.ancestors.insert(block, missing);
        let ghost before = self.children@;
        let mut waiting: KeySet<H256> = match self.children.remove(&parent) {
            Some(set) => set,
            None => KeySet::new(),
        };
        assert(waiting@ == waiting_for(set_views(before), parent));
        waiting.insert(block);
        self.children.insert(parent, waiting);
        assert(set_views(self.children@) =~= old(self)@.linked(block, parent, missing).children);
    }

    /// Records `block` as waiting for `parent`, and answers the ancestor that is really missing.
    pub fn pend(&mut self, block: H256, parent: H256) -> (res: H256)
        ensures
            res == missing_ancestor(old(self)@.ancestors, parent),
            final(self)@ == old(self)@.pended(block, parent),
    {
        let missing = self.resolve_missing(&parent);
        self.link(block, parent, missing);
        missing
    }

    /// Takes the blocks that wait for `parent` out of the table, and answers their roots.
    pub fn take_children(&mut self, parent: &H256) -> (res: Vec<H256>)
        ensures
            res@.no_duplicates(),
            res@.to_set() == waiting_for(old(self)@.children, *parent),
            final(self)@ == old(self)@.released(*parent),
    {
        let ghost before = self@;
        let taken: Option<KeySet<H256>> = self.children.remove(parent);
        assert(set_views(self.children@) =~= before.children.remove(*parent));
        match taken {
            None => {
                let res: Vec<H256> = Vec::new();
                proof {
                    assert(res@.to_set() =~= Set::empty());
                    assert(self@ =~= before.released(*parent));
                }
                res
            },
            Some(set) => {
                let total: usize = set.len();
                let mut res: Vec<H256> = Vec::new();
                let mut i: usize = 0;
                proof {
                    set.lemma_order();
                }
                while i < total
                    invariant
                        i <= total,
                        total == set.order().len(),
                        set.order().no_duplicates(),
                        set_views(self.children@) == before.children.remove(*parent),
                        res@ == set.order().take(i as int),
                        self.ancestors@ == before.ancestors.remove_keys(res@.to_set()),
                    decreases total - i,
                {
                    let root = set.at(i);
                    self.ancestors.remove(&root);
                    let ghost had = res@;
                    res.push(root);
                    i = i + 1;
                    proof {
                        assert(res@ =~= set.order().take(i as int));
                        lemma_push_to_set(had, root);
                        assert(self.ancestors@ =~= before.ancestors.remove_keys(res@.to_set()));
                    }
                }
                proof {
                    assert(res@ =~= set.order());
                    assert(self@ =~= before.released(*parent));
                }
                res
            },
        }
    }

    /// Forgets a block and everything that waits, however indirectly, for it.
    pub fn discard_subtree(&mut self, root: &H256)
        ensures
            final(self)@ == old(self)@.discarded(*root),
    {
        let ghost before = self@;
        let ghost start = *root;
        let mut work: Vec<H256> = Vec::new();
        work.push(*root);
        self.ancestors.remove(root);
        let ghost mut gone: Set<H256> = Set::empty();
        proof {
            assert(descends_by(before.children, start, start, 0));
            assert(before.children.remove_keys(Set::empty()) =~= before.children);
            assert(waiting_in(before.children, Set::empty()) =~= Set::empty());
            assert(self@.ancestors =~= before.ancestors.remove_keys(
                waiting_in(before.children, gone).insert(start),
            ));
            assert(work@[0] == start);
        }
        while work.len() > 0
            invariant
                self@.children == before.children.remove_keys(gone),
                self@.ancestors == before.ancestors.remove_keys(
                    waiting_in(before.children, gone).insert(start),
                ),
                forall|k: H256| #[trigger] gone.contains(k) ==> descends(before.children, start, k),
                forall|k: H256| #[trigger] work@.contains(k) ==> descends(before.children, start, k),
                gone.contains(start) || work@.contains(start),
                forall|p: H256, c: H256|
                    gone.contains(p) && #[trigger] waiting_for(before.children, p).contains(c)
                        ==> gone.contains(c) || work@.contains(c),
            decreases self.children@.dom().len(), work.len(),
        {
            let ghost work_before = work@;
            let ghost table = self@;
            let ghost remaining = self.children@;
            let next = work.pop().unwrap();
            proof {
                assert(work_before.contains(work_before[work_before.len() - 1]));
                assert forall|k: H256| #[trigger] work@.contains(k) implies work_before.contains(k) by {
                    let i = work@.index_of(k);
                    assert(work_before[i] == k);
                }
            }
            let size: usize = self.children.len();
            let found = self.children.contains_key(&next);
            let roots = self.take_children(&next);
            proof {
                assert forall|k: H256| #[trigger] work_before.contains(k) implies k == next
                    || work@.contains(k) by {
                    let i = work_before.index_of(k);
                    if i < work@.len() {
                        assert(work@[i] == k);
                    }
                }
                let was_gone = gone;
                gone = gone.insert(next);
                assert(self@.children =~= before.children.remove_keys(gone));
                assert(self@.ancestors =~= before.ancestors.remove_keys(
                    waiting_in(before.children, gone).insert(start),
                )) by {
                    assert(was_gone.contains(next) ==> waiting_for(table.children, next)
                        =~= Set::empty());
                    assert(!was_gone.contains(next) ==> waiting_for(table.children, next)
                        == waiting_for(before.children, next));
                    lemma_waiting_in_insert(before.children, was_gone, next);
                }
                if found {
                    assert(self.children@.dom() =~= remaining.dom().remove(next)) by {
                        assert(set_views(self.children@).dom() =~= self.children@.dom());
                        assert(set_views(remaining).dom() =~= remaining.dom());
                        assert(self@.children.dom() =~= table.children.dom().remove(next));
                    }
                } else {
                    assert(set_views(remaining).dom() =~= remaining.dom());
                    assert(waiting_for(table.children, next) =~= Set::empty());
                    assert(self.children@.dom() =~= remaining.dom()) by {
                        assert(set_views(self.children@).dom() =~= self.children@.dom());
                        assert(self@.children.dom() =~= table.children.dom());
                    }
                    assert(roots@.len() == 0) by {
                        if roots@.len() > 0 {
                            assert(roots@.to_set().contains(roots@[0]));
                        }
                    }
                }
                assert forall|k: H256| #[trigger] roots@.contains(k) implies descends(
                    before.children,
                    start,
                    k,
                ) by {
                    assert(roots@.to_set().contains(k));
                    assert(waiting_for(before.children, next).contains(k));
                    lemma_descends_step(before.children, start, next, k);
                }
            }
            let ghost rest = work@;
            let mut i: usize = 0;
            while i < roots.len()
                invariant
                    i <= roots@.len(),
                    work@ == rest + roots@.take(i as int),
                decreases roots@.len() - i,
            {
                work.push(roots[i]);
                i = i + 1;
                assert(work@ =~= rest + roots@.take(i as int));
            }
            proof {
                assert(work@ =~= rest + roots@);
                assert forall|k: H256| #[trigger] work@.contains(k) <==> rest.contains(k)
                    || roots@.contains(k) by {
                    if work@.contains(k) {
                        let j = work@.index_of(k);
                        if j < rest.len() {
                            assert(rest[j] == k);
                        } else {
                            assert(roots@[j - rest.len()] == k);
                        }
                    }
                    if rest.contains(k) {
                        let j = rest.index_of(k);
                        assert(work@[j] == k);
                    }
                    if roots@.contains(k) {
                        let j = roots@.index_of(k);
                        assert(work@[j + rest.len()] == k);
                    }
                }
                assert forall|p: H256, c: H256|
                    gone.contains(p) && #[trigger] waiting_for(before.children, p).contains(
                        c,
                    ) implies gone.contains(c) || work@.contains(c) by {
                    if p == next && table.children.contains_key(next) {
                        assert(roots@.to_set().contains(c));
                        assert(roots@.contains(c));
                    } else if p != next && work_before.contains(c) {
                        assert(c == next || rest.contains(c));
                    }
                    assert(work@.contains(c) <==> rest.contains(c) || roots@.contains(c));
                }
            }
        }
        proof {
            assert forall|k: H256| descends(before.children, start, k) implies gone.contains(k) by {
                let n = choose|n: nat| descends_by(before.children, start, k, n);
                lemma_closed_under_descent(before.children, start, gone, k, n);
            }
            assert(gone =~= Set::new(|k: H256| descends(before.children, start, k)));
            assert(waiting_in(before.children, gone).insert(start) =~= gone) by {
                assert forall|k: H256| waiting_in(before.children, gone).contains(
                    k,
                ) implies gone.contains(k) by {
                    let p = choose|p: H256|
                        #![trigger gone.contains(p)]
                        gone.contains(p) && waiting_for(before.children, p).contains(k);
                    lemma_descends_step(before.children, start, p, k);
                }
                assert forall|k: H256| gone.contains(k) && k != start implies waiting_in(
                    before.children,
                    gone,
                ).contains(k) by {
                    lemma_descendant_waits(before.children, start, k);
                    let mid = choose|mid: H256|
                        descends(before.children, start, mid) && #[trigger] waiting_for(
                            before.children,
                            mid,
                        ).contains(k);
                    assert(gone.contains(mid));
                }
            }
            assert(self@ =~= before.discarded(start));
        }
    }
}

/// The blocks that wait for a parent in `parents`.
spec fn waiting_in(children: Map<H256, Set<H256>>, parents: Set<H256>) -> Set<H256> {
    Set::new(
        |k: H256|
            exists|p: H256|
                #![trigger parents.contains(p)]
                parents.contains(p) && waiting_for(children, p).contains(k),
    )
}

proof fn lemma_waiting_in_insert(
    children: Map<H256, Set<H256>>,
    parents: Set<H256>,
    parent: H256,
)
    ensures
        waiting_in(children, parents.insert(parent)) =~= waiting_in(children, parents).union(
            waiting_for(children, parent),
        ),
{
    let more = parents.insert(parent);
    assert forall|k: H256| waiting_in(children, parents).contains(k) implies waiting_in(
        children,
        more,
    ).contains(k) by {
        let p = choose|p: H256|
            #![trigger parents.contains(p)]
            parents.contains(p) && waiting_for(children, p).contains(k);
        assert(more.contains(p));
    }
    assert forall|k: H256| waiting_for(children, parent).contains(k) implies waiting_in(
        children,
        more,
    ).contains(k) by {
        assert(more.contains(parent));
    }
    assert forall|k: H256| waiting_in(children, more).contains(k) implies waiting_in(
        children,
        parents,
    ).contains(k) || waiting_for(children, parent).contains(k) by {
        let p = choose|p: H256|
            #![trigger more.contains(p)]
            more.contains(p) && waiting_for(children, p).contains(k);
        if p != parent {
            assert(parents.contains(p));
        }
    }
}

proof fn lemma_push_to_set(s: Seq<H256>, x: H256)
    ensures
        s.push(x).to_set() == s.to_set().insert(x),
{
    assert forall|k: H256| s.to_set().insert(x).contains(k) implies s.push(x).contains(k) by {
        if k == x {
            assert(s.push(x)[s.len() as int] == x);
        } else {
            let i = s.index_of(k);
            assert(s.push(x)[i] == k);
        }
    }
    assert(s.push(x).to_set() =~= s.to_set().insert(x));
}

pub(crate) proof fn lemma_descends_step(children: Map<H256, Set<H256>>, from: H256, mid: H256, to: H256)
    requires
        descends(children, from, mid),
        waiting_for(children, mid).contains(to),
    ensures
        descends(children, from, to),
{
    let n = choose|n: nat| descends_by(children, from, mid, n);
    assert(descends_by(children, from, mid, ((n + 1) - 1) as nat));
    assert(descends_by(children, from, to, n + 1));
}

/// A descendant other than the block itself waits for a descendant.
pub(crate) proof fn lemma_descendant_waits(children: Map<H256, Set<H256>>, from: H256, to: H256)
    requires
        descends(children, from, to),
        to != from,
    ensures
        exists|mid: H256|
            descends(children, from, mid) && #[trigger] waiting_for(children, mid).contains(to),
{
    let n = choose|n: nat| descends_by(children, from, to, n);
    let mid = choose|mid: H256|
        descends_by(children, from, mid, (n - 1) as nat) && #[trigger] waiting_for(
            children,
            mid,
        ).contains(to);
    assert(descends(children, from, mid));
}

proof fn lemma_closed_under_descent(
    children: Map<H256, Set<H256>>,
    from: H256,
    closed: Set<H256>,
    to: H256,
    n: nat,
)
    requires
        closed.contains(from),
        forall|p: H256, c: H256|
            closed.contains(p) && #[trigger] waiting_for(children, p).contains(c)
                ==> closed.contains(c),
        descends_by(children, from, to, n),
    ensures
        closed.contains(to),
    decreases n,
{
    if n > 0 {
        let mid = choose|mid: H256|
            descends_by(children, from, mid, (n - 1) as nat) && #[trigger] waiting_for(
                children,
                mid,
            ).contains(to);
        lemma_closed_under_descent(children, from, closed, mid, (n - 1) as nat);
    }
}

} // verus!
