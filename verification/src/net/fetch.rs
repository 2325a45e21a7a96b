//! Fetching a block by its root, from one peer after another.
use crate::keyed::KeySet;
use crate::net::server::{
    fetch_views, P2PServer, P2PView, PendingRequest, PendingRequestKind, PendingRequestView,
};
use crate::primitives::{PeerId, RequestId, H256};
use rand::seq::SliceRandom;
use vstd::arithmetic::power::pow;
use vstd::prelude::*;

verus! {

/// How often a block is asked for again before the fetch is given up: after waits of 5, 10, 20,
/// 40, 80, 160, 320, 640, 1280 and 2560 milliseconds.
pub const MAX_FETCH_RETRIES: u32 = 10;

/// Milliseconds to wait after the first failure.
pub const INITIAL_BACKOFF_MS: u64 = 5;

/// By how much the wait grows with each further failure.
pub const BACKOFF_MULTIPLIER: u64 = 2;

/// What follows a failure to fetch a block.
#[derive(Clone, Copy, Debug, PartialEq, Eq, Structural)]
pub enum FetchFailure {
    /// Nothing: the block is not being fetched any more.
    NotPending,
    /// Nothing: the fetch was given up.
    GaveUp,
    /// Another try after a wait.
    Retry {
        /// How long to wait, in milliseconds.
        backoff_ms: u64,
    },
}

/// How long to wait after failing the given number of times, in milliseconds.
pub open spec fn backoff_after(attempts: int) -> int {
    INITIAL_BACKOFF_MS * pow(BACKOFF_MULTIPLIER as int, (attempts - 1) as nat)
}

/// The connected peers that have not failed to serve `root`.
pub open spec fn untried(server: P2PView, root: H256) -> Set<PeerId> {
    if server.fetches.contains_key(root) {
        server.connected.difference(server.fetches[root].failed)
    } else {
        server.connected
    }
}

/// The peers that may be asked for `root`: those that have not failed to serve it, or, once all
/// have, all of them again.
pub open spec fn fetch_pool(server: P2PView, root: H256) -> Set<PeerId> {
    if untried(server, root) == Set::<PeerId>::empty() {
        server.connected
    } else {
        untried(server, root)
    }
}

/// The server once peers to ask for `root` were sought: where all have failed, a new round of
/// elimination begins.
pub open spec fn pool_sought(server: P2PView, root: H256) -> P2PView {
    if server.connected != Set::<PeerId>::empty() && untried(server, root) == Set::<
        PeerId,
    >::empty() {
        P2PView {
            fetches: server.fetches.insert(
                root,
                PendingRequestView { failed: Set::empty(), ..server.fetches[root] },
            ),
            ..server
        }
    } else {
        server
    }
}

/// The server once `root` was asked for with the request `id`.
pub open spec fn fetch_tracked(server: P2PView, root: H256, id: RequestId) -> P2PView {
    P2PView {
        fetches: if server.fetches.contains_key(root) {
            server.fetches
        } else {
            server.fetches.insert(
                root,
                PendingRequestView { attempts: 1, failed: Set::empty() },
            )
        },
        outbound: server.outbound.insert(id, PendingRequestKind::Root(root)),
        ..server
    }
}

/// The server once `peer` failed to serve `root`.
pub open spec fn fetch_failed(server: P2PView, root: H256, peer: PeerId) -> P2PView {
    if !server.fetches.contains_key(root) {
        server
    } else if server.fetches[root].attempts > MAX_FETCH_RETRIES {
        P2PView { fetches: server.fetches.remove(root), ..server }
    } else {
        P2PView {
            fetches: server.fetches.insert(
                root,
                PendingRequestView {
                    attempts: (server.fetches[root].attempts + 1) as u32,
                    failed: server.fetches[root].failed.insert(peer),
                },
            ),
            ..server
        }
    }
}

/// What follows once a peer failed to serve `root`.
pub open spec fn failure_outcome(server: P2PView, root: H256) -> FetchFailure {
    if !server.fetches.contains_key(root) {
        FetchFailure::NotPending
    } else if server.fetches[root].attempts > MAX_FETCH_RETRIES {
        FetchFailure::GaveUp
    } else {
        FetchFailure::Retry {
            backoff_ms: backoff_after(server.fetches[root].attempts as int) as u64,
        }
    }
}

/// `SliceRandom::choose` of the `rand` crate with the thread's generator: one of the peers, by
/// chance, and none where there are none. Which one it is is left open.
#[verifier::external_body]
fn choose_peer(pool: &Vec<PeerId>) -> (res: Option<PeerId>)
    ensures
        match res {
            Some(peer) => pool@.contains(peer),
            None => pool@.len() == 0,
        },
{
    pool.choose(&mut rand::thread_rng()).copied()
}

/// The members of `all` that are not in `without`.
fn difference(all: &KeySet<PeerId>, without: Option<&KeySet<PeerId>>) -> (res: Vec<PeerId>)
    ensures
        res@.no_duplicates(),
        res@.to_set() == (match without {
            Some(set) => all@.difference(set@),
            None => all@,
        }),
{
    let total: usize = all.len();
    let ghost kept = match without {
        Some(set) => all@.difference(set@),
        None => all@,
    };
    let mut res: Vec<PeerId> = Vec::new();
    let mut i: usize = 0;
    proof {
        all.lemma_order();
    }
    while i < total
        invariant
            i <= total,
            total == all.order().len(),
            all.order().no_duplicates(),
            all.order().to_set() == all@,
            kept == (match without {
                Some(set) => all@.difference(set@),
                None => all@,
            }),
            res@.no_duplicates(),
            forall|p: PeerId| #[trigger]
                res@.contains(p) <==> kept.contains(p) && all.order().take(i as int).contains(p),
        decreases total - i,
    {
        let peer = all.at(i);
        let keep = match without {
            Some(set) => !set.contains(&peer),
            None => true,
        };
        let ghost before = res@;
        proof {
            let less = all.order().take(i as int);
            let more = all.order().take(i + 1);
            assert forall|p: PeerId| #[trigger] more.contains(p) <==> less.contains(p) || p
                == peer by {
                if more.contains(p) {
                    let j = more.index_of(p);
                    if j < i {
                        assert(less[j] == p);
                    }
                }
                if less.contains(p) {
                    let j = less.index_of(p);
                    assert(more[j] == p);
                }
                if p == peer {
                    assert(more[i as int] == p);
                }
            }
            assert(!less.contains(peer)) by {
                if less.contains(peer) {
                    let j = less.index_of(peer);
                    assert(all.order()[j] == all.order()[i as int]);
                }
            }
        }
        if keep {
            res.push(peer);
            proof {
                assert forall|p: PeerId| #[trigger] res@.contains(p) <==> before.contains(p) || p
                    == peer by {
                    if res@.contains(p) {
                        let j = res@.index_of(p);
                        if j < before.len() {
                            assert(before[j] == p);
                        }
                    }
                    if before.contains(p) {
                        let j = before.index_of(p);
                        assert(res@[j] == p);
                    }
                    if p == peer {
                        assert(res@[before.len() as int] == p);
                    }
                }
                assert(res@.no_duplicates()) by {
                    assert(!before.contains(peer));
                }
            }
        }
        i = i + 1;
    }
    proof {
        assert(all.order().take(total as int) =~= all.order());
        assert forall|p: PeerId| res@.to_set().contains(p) <==> kept.contains(p) by {
            if kept.contains(p) {
                assert(all.order().to_set().contains(p));
            }
        }
        assert(res@.to_set() =~= kept);
    }
    res
}

/// Writes a fetch back into the map that it was taken out of.
proof fn lemma_fetch_written(
    before: Map<H256, PendingRequest>,
    after: Map<H256, PendingRequest>,
    root: H256,
    fetch: PendingRequest,
)
    requires
        after == before.remove(root).insert(root, fetch),
    ensures
        fetch_views(after) == fetch_views(before).insert(root, fetch@),
{
    assert(fetch_views(after) =~= fetch_views(before).insert(root, fetch@));
}

impl P2PServer {
    /// The peers that may be asked for `root`; none if nobody is connected.
    pub fn fetch_candidates(&mut self, root: &H256) -> (res: Vec<PeerId>)
        ensures
            res@.no_duplicates(),
            res@.to_set() == fetch_pool(old(self)@, *root),
            final(self)@ == pool_sought(old(self)@, *root),
    {
        let ghost before = self@;
        let pool = match self.pending_root_requests.get(root) {
            Some(fetch) => difference(&self.connected_peers, Some(&fetch.failed_peers)),
            None => difference(&self.connected_peers, None),
        };
        assert(pool@.to_set() == untried(before, *root));
        let alone = self.connected_peers.is_empty();
        if pool.len() > 0 || alone {
            proof {
                if pool@.len() > 0 {
                    assert(pool@.to_set().contains(pool@[0]));
                } else {
                    assert(pool@.to_set() =~= Set::empty());
                }
            }
            return pool;
        }
        assert(pool@.to_set() =~= Set::empty());
        let ghost fetches = self.pending_root_requests@;
        match self.pending_root_requests.remove(root) {
            Some(mut fetch) => {
                fetch.failed_peers = KeySet::new();
                let ghost cleared = fetch;
                self.pending_root_requests.insert(*root, fetch);
                proof {
                    lemma_fetch_written(
                        fetches,
                        self.pending_root_requests@,
                        *root,
                        cleared,
                    );
                }
            },
            None => {},
        }
        assert(self@ =~= pool_sought(before, *root));
        difference(&self.connected_peers, None)
    }

    /// The peer to ask for `root`: one of those that may be asked, by chance; `None` if nobody is
    /// connected.
    pub fn fetch_block_from_peer(&mut self, root: &H256) -> (res: Option<PeerId>)
        ensures
            final(self)@ == pool_sought(old(self)@, *root),
            match res {
                Some(peer) => fetch_pool(old(self)@, *root).contains(peer),
                None => old(self)@.connected == Set::<PeerId>::empty(),
            },
    {
        let pool = self.fetch_candidates(root);
        let choice = choose_peer(&pool);
        proof {
            match choice {
                Some(peer) => {
                    assert(pool@.to_set().contains(peer));
                },
                None => {
                    assert(pool@.to_set() =~= Set::empty());
                },
            }
        }
        choice
    }

    /// Tracks a request for `root` that was sent, with its number; answers whether it was sent.
    pub fn on_fetch_sent(&mut self, root: H256, request_id: Option<RequestId>) -> (res: bool)
        ensures
            res == (request_id is Some),
            final(self)@ == (match request_id {
                Some(id) => fetch_tracked(old(self)@, root, id),
                None => old(self)@,
            }),
            old(self)@.wf() ==> final(self)@.wf(),
    {
        let ghost before = self@;
        match request_id {
            None => false,
            Some(id) => {
                if !self.pending_root_requests.contains_key(&root) {
                    let fetch = PendingRequest { attempts: 1, failed_peers: KeySet::new() };
                    let ghost fetches = self.pending_root_requests@;
                    let ghost new = fetch;
                    self.pending_root_requests.insert(root, fetch);
                    proof {
                        assert(fetches.remove(root) =~= fetches);
                        lemma_fetch_written(
                            fetches,
                            self.pending_root_requests@,
                            root,
                            new,
                        );
                    }
                }
                self.outbound_requests.insert(id, PendingRequestKind::Root(root));
                assert(self@ =~= fetch_tracked(before, root, id));
                true
            },
        }
    }

    /// Notes that `peer` failed to serve `root`, and decides what follows: another try, after a
    /// wait that doubles each time, or the end of the fetch.
    pub fn handle_fetch_failure(&mut self, root: &H256, peer: PeerId) -> (res: FetchFailure)
        requires
            old(self)@.wf(),
        ensures
            res == failure_outcome(old(self)@, *root),
            final(self)@ == fetch_failed(old(self)@, *root, peer),
            final(self)@.wf(),
    {
        let ghost before = self@;
        let ghost fetches = self.pending_root_requests@;
        match self.pending_root_requests.remove(root) {
            None => {
                assert(fetches.remove(*root) =~= fetches);
                FetchFailure::NotPending
            },
            Some(mut fetch) => {
                assert(before.fetches.contains_key(*root));
                if fetch.attempts > MAX_FETCH_RETRIES {
                    assert(self@.fetches =~= before.fetches.remove(*root));
                    return FetchFailure::GaveUp;
                }
                fetch.failed_peers.insert(peer);
                let backoff_ms: u64 = backoff(fetch.attempts);
                fetch.attempts = fetch.attempts + 1;
                let ghost noted = fetch;
                self.pending_root_requests.insert(*root, fetch);
                proof {
                    lemma_fetch_written(
                        fetches,
                        self.pending_root_requests@,
                        *root,
                        noted,
                    );
                    assert(self@ =~= fetch_failed(before, *root, peer));
                }
                FetchFailure::Retry { backoff_ms }
            },
        }
    }

    /// Whether `root` is to be fetched on request: not if it is already being fetched.
    pub fn wants_fetch(&self, root: &H256) -> (res: bool)
        ensures
            res == !self@.fetches.contains_key(*root),
    {
        !self.pending_root_requests.contains_key(root)
    }

    /// Whether a beacon block is to be fetched on request: not if it is already being fetched.
    pub fn wants_beacon_fetch(&self, root: &H256) -> (res: bool)
        ensures
            res == !self@.beacon_fetches.contains_key(*root),
    {
        !self.beacon_pending_root_requests.contains_key(root)
    }

    /// Whether `root` is still to be tried again after a wait: not if it arrived meanwhile.
    pub fn wants_retry(&self, root: &H256) -> (res: bool)
        ensures
            res == self@.fetches.contains_key(*root),
    {
        self.pending_root_requests.contains_key(root)
    }

    /// Forgets a fetch that arrived, or that could not be tried again.
    pub fn end_fetch(&mut self, root: &H256)
        ensures
            final(self)@ == (P2PView { fetches: old(self)@.fetches.remove(*root), ..old(self)@ }),
            old(self)@.wf() ==> final(self)@.wf(),
    {
        self.pending_root_requests.remove(root);
        assert(self@.fetches =~= old(self)@.fetches.remove(*root));
    }
}

/// How long to wait after failing the given number of times, in milliseconds.
pub fn backoff(attempts: u32) -> (res: u64)
    requires
        1 <= attempts <= MAX_FETCH_RETRIES,
    ensures
        res == backoff_after(attempts as int),
        res <= 2560,
{
    let mut wait: u64 = INITIAL_BACKOFF_MS;
    let mut i: u32 = 1;
    assert(pow(2, 0) == 1) by {
        reveal(pow);
    }
    assert(wait == backoff_after(1));
    while i < attempts
        invariant
            1 <= i <= attempts <= 10,
            wait == backoff_after(i as int),
            i == 1 ==> wait <= 5,
            i == 2 ==> wait <= 10,
            i == 3 ==> wait <= 20,
            i == 4 ==> wait <= 40,
            i == 5 ==> wait <= 80,
            i == 6 ==> wait <= 160,
            i == 7 ==> wait <= 320,
            i == 8 ==> wait <= 640,
            i == 9 ==> wait <= 1280,
            i == 10 ==> wait <= 2560,
        decreases attempts - i,
    {
        proof {
            law_backoff_doubles(i as int);
        }
        wait = wait * BACKOFF_MULTIPLIER;
        i = i + 1;
    }
    wait
}

/// The wait starts at five milliseconds and doubles with each failure.
pub proof fn law_backoff_doubles(attempts: int)
    requires
        attempts >= 1,
    ensures
        backoff_after(1) == INITIAL_BACKOFF_MS,
        backoff_after(attempts + 1) == 2 * backoff_after(attempts),
{
    reveal(pow);
    assert(pow(2, attempts as nat) == 2 * pow(2, (attempts - 1) as nat));
}

/// A peer that failed to serve a block is not asked for it again while another is left.
pub proof fn law_failed_peers_come_last(server: P2PView, root: H256, peer: PeerId, other: PeerId)
    requires
        server.fetches.contains_key(root),
        server.fetches[root].failed.contains(peer),
        server.connected.contains(other),
        !server.fetches[root].failed.contains(other),
    ensures
        !fetch_pool(server, root).contains(peer),
        fetch_pool(server, root).contains(other),
{
    assert(untried(server, root).contains(other));
}

/// As long as anyone is connected there is someone to ask.
pub proof fn law_someone_can_be_asked(server: P2PView, root: H256, peer: PeerId)
    requires
        server.connected.contains(peer),
    ensures
        fetch_pool(server, root) != Set::<PeerId>::empty(),
        fetch_pool(server, root).subset_of(server.connected),
{
    assert(server.connected != Set::<PeerId>::empty());
}

/// Each failure brings a fetch closer to its end: it is counted, or the fetch is over. A fetch
/// is tried again ten times, and given up when the tenth retry fails.
pub proof fn law_fetches_end(server: P2PView, root: H256, peer: PeerId)
    requires
        server.fetches.contains_key(root),
    ensures
        server.fetches[root].attempts <= MAX_FETCH_RETRIES ==> fetch_failed(server, root, peer).fetches.contains_key(
            root,
        ) && fetch_failed(server, root, peer).fetches[root].attempts
            == server.fetches[root].attempts + 1 && failure_outcome(server, root) == (
        FetchFailure::Retry {
            backoff_ms: backoff_after(server.fetches[root].attempts as int) as u64,
        }),
        server.fetches[root].attempts > MAX_FETCH_RETRIES ==> !fetch_failed(
            server,
            root,
            peer,
        ).fetches.contains_key(root) && failure_outcome(server, root) == FetchFailure::GaveUp,
{
}

/// A request that was sent keeps the record of earlier tries.
pub proof fn law_retry_keeps_the_count(server: P2PView, root: H256, id: RequestId)
    requires
        server.fetches.contains_key(root),
    ensures
        fetch_tracked(server, root, id).fetches == server.fetches,
{
}

} // verus!
