//! Finding peers: which contacts are worth dialing, and when to dial them.
use crate::net::range_sync::least;
use crate::net::server::{DiscoveredPeer, DiscoveryView, P2PServer, P2PView};
use crate::net::subnets::{covered, covered_subnets, list_views};
use crate::primitives::{Key, PeerId, H256};
use std::collections::HashSet;
use vstd::prelude::*;

verus! {

broadcast use vstd::std_specs::hash::group_hash_axioms;

/// Why a contact was not admitted.
#[derive(Clone, Copy, Debug, PartialEq, Eq, Structural)]
pub struct Refusal {
    /// Whether nothing that the contact can still tell us would change it.
    pub permanent: bool,
}

/// A contact that discovery found.
pub struct Contact {
    /// The contact's node id.
    pub node_id: H256,
    /// What its record led to; `None` if its record has not arrived yet.
    pub admission: Option<Result<DiscoveredPeer, Refusal>>,
}

/// The peers of the contacts that were admitted, in order.
pub open spec fn admitted(contacts: Seq<Contact>) -> Seq<DiscoveredPeer>
    decreases contacts.len(),
{
    if contacts.len() == 0 {
        Seq::empty()
    } else {
        match contacts.last().admission {
            Some(Ok(peer)) => admitted(contacts.drop_last()).push(peer),
            _ => admitted(contacts.drop_last()),
        }
    }
}

/// The node ids of the contacts that were refused for good, in order.
pub open spec fn unwanted(contacts: Seq<Contact>) -> Seq<H256>
    decreases contacts.len(),
{
    if contacts.len() == 0 {
        Seq::empty()
    } else {
        match contacts.last().admission {
            Some(Err(refusal)) => if refusal.permanent {
                unwanted(contacts.drop_last()).push(contacts.last().node_id)
            } else {
                unwanted(contacts.drop_last())
            },
            _ => unwanted(contacts.drop_last()),
        }
    }
}

/// Splits contacts into peers worth dialing and node ids to avoid. A contact whose record has
/// not arrived is passed over, and only a refusal for good is held against a contact.
pub fn select_candidates(contacts: Vec<Contact>) -> (res: (Vec<DiscoveredPeer>, Vec<H256>))
    ensures
        res.0@ == admitted(contacts@),
        res.1@ == unwanted(contacts@),
{
    let ghost all = contacts@;
    let mut rest: Vec<Contact> = contacts;
    let mut peers: Vec<DiscoveredPeer> = Vec::new();
    let mut avoid: Vec<H256> = Vec::new();
    let ghost mut done: int = 0;
    assert(all.skip(0) =~= all);
    while rest.len() > 0
        invariant
            0 <= done <= all.len(),
            rest@ == all.skip(done),
            peers@ == admitted(all.take(done)),
            avoid@ == unwanted(all.take(done)),
        decreases rest@.len(),
    {
        let contact = rest.remove(0);
        proof {
            assert(all.take(done + 1).drop_last() =~= all.take(done));
            assert(all.take(done + 1).last() == contact);
            done = done + 1;
            assert(rest@ =~= all.skip(done));
        }
        match contact.admission {
            None => {},
            Some(Ok(peer)) => {
                peers.push(peer);
            },
            Some(Err(refusal)) => {
                if refusal.permanent {
                    avoid.push(contact.node_id);
                }
            },
        }
    }
    assert(all.take(done) =~= all);
    (peers, avoid)
}

/// What the dial loop does next.
#[derive(Clone, Copy, Debug, PartialEq, Eq, Structural)]
pub enum DiscoveryStep {
    /// Nothing: there are enough peers, or discovery is off.
    Rest,
    /// Draw contacts, and then dial.
    Refill,
    /// Dial.
    Dial,
}

/// Whether a candidate is passed over: it is the node itself, or already connected.
pub open spec fn passed_over(server: P2PView, peer: PeerId) -> bool {
    peer == server.local || server.connected.contains(peer)
}

/// Which of the candidates are dialed, and which are left, when at most `budget` are dialed.
pub open spec fn dial_run(
    server: P2PView,
    candidates: Seq<DiscoveredPeer>,
    budget: int,
) -> (Seq<DiscoveredPeer>, Seq<DiscoveredPeer>)
    decreases candidates.len(),
{
    if budget <= 0 || candidates.len() == 0 {
        (Seq::empty(), candidates)
    } else if passed_over(server, candidates[0].peer_id) {
        dial_run(server, candidates.skip(1), budget)
    } else {
        let rest = dial_run(server, candidates.skip(1), budget - 1);
        (seq![candidates[0]] + rest.0, rest.1)
    }
}

/// How many candidates are dialed at most: as many as peers are missing, and no more than one
/// batch.
pub open spec fn dial_budget(server: P2PView, target_peers: int, batch: int) -> int {
    if server.connected.len() >= target_peers {
        0
    } else {
        least(target_peers - server.connected.len(), batch)
    }
}

/// The known subnets of peers once more peers were dialed.
pub open spec fn attnets_after(
    attnets: Map<PeerId, Seq<u64>>,
    dialed: Seq<DiscoveredPeer>,
) -> Map<PeerId, Seq<u64>>
    decreases dialed.len(),
{
    if dialed.len() == 0 {
        attnets
    } else {
        attnets_after(attnets, dialed.drop_last()).insert(
            dialed.last().peer_id,
            dialed.last().subnets@,
        )
    }
}

/// The server once the dial loop has dialed.
pub open spec fn after_dialing(server: P2PView, budget: int) -> P2PView {
    match server.discovery {
        Some(d) => P2PView {
            discovery: Some(
                DiscoveryView {
                    candidates: dial_run(server, d.candidates, budget).1,
                    attnets: attnets_after(
                        d.attnets,
                        dial_run(server, d.candidates, budget).0,
                    ),
                },
            ),
            ..server
        },
        None => server,
    }
}

/// The candidates that the dial loop dials.
pub open spec fn to_dial(server: P2PView, budget: int) -> Seq<DiscoveredPeer> {
    match server.discovery {
        Some(d) => dial_run(server, d.candidates, budget).0,
        None => Seq::empty(),
    }
}

/// Whether the node has no peers at all.
pub open spec fn starved(server: P2PView) -> bool {
    server.connected == Set::<PeerId>::empty()
}

/// What the dial loop does next, when it aims at `target_peers` peers.
pub open spec fn step_of(server: P2PView, target_peers: int) -> DiscoveryStep {
    if server.connected.len() >= target_peers {
        DiscoveryStep::Rest
    } else {
        match server.discovery {
            None => DiscoveryStep::Rest,
            Some(d) => if d.candidates.len() == 0 {
                DiscoveryStep::Refill
            } else {
                DiscoveryStep::Dial
            },
        }
    }
}

/// The subnets that connected peers cover, as far as they were dialed from discovery.
pub open spec fn covered_by(server: P2PView) -> Set<u64> {
    match server.discovery {
        Some(d) => covered(d.attnets, server.connected),
        None => Set::empty(),
    }
}

/// The server with more candidates behind those that are left.
pub open spec fn with_candidates(server: P2PView, ranked: Seq<DiscoveredPeer>) -> P2PView {
    P2PView {
        discovery: match server.discovery {
            Some(d) => Some(DiscoveryView { candidates: d.candidates + ranked, ..d }),
            None => None,
        },
        ..server
    }
}

fn copy_ids(ids: &Vec<u64>) -> (res: Vec<u64>)
    ensures
        res@ == ids@,
{
    let mut res: Vec<u64> = Vec::new();
    let mut i: usize = 0;
    while i < ids.len()
        invariant
            i <= ids@.len(),
            res@ == ids@.take(i as int),
        decreases ids@.len() - i,
    {
        res.push(ids[i]);
        i = i + 1;
        assert(res@ =~= ids@.take(i as int));
    }
    assert(ids@.take(i as int) =~= ids@);
    res
}

impl P2PServer {
    /// Whether the node has no peers at all, and so the dial loop runs at its shorter interval.
    pub fn is_starved(&self) -> (res: bool)
        ensures
            res == starved(self@),
    {
        self.connected_peers.is_empty()
    }

    /// What the dial loop does next.
    pub fn discovery_step(&self, target_peers: usize) -> (res: DiscoveryStep)
        ensures
            res == step_of(self@, target_peers as int),
    {
        if self.connected_peers.len() >= target_peers {
            return DiscoveryStep::Rest;
        }
        match &self.discovery {
            None => DiscoveryStep::Rest,
            Some(state) => if state.candidates.len() == 0 {
                DiscoveryStep::Refill
            } else {
                DiscoveryStep::Dial
            },
        }
    }

    /// The subnets that connected peers cover, as far as they were dialed from discovery.
    pub fn covered_by_peers(&self) -> (res: HashSet<u64>)
        ensures
            res@ == covered_by(self@),
    {
        match &self.discovery {
            Some(state) => covered_subnets(&state.peer_attnets, &self.connected_peers),
            None => HashSet::new(),
        }
    }

    /// Adds admitted peers, best first, behind the candidates that are left.
    pub fn add_candidates(&mut self, ranked: Vec<DiscoveredPeer>)
        ensures
            final(self)@ == with_candidates(old(self)@, ranked@),
    {
        let ghost all = ranked@;
        self.discovery = match self.discovery.take() {
            None => None,
            Some(mut state) => {
                let ghost before = state.candidates@;
                let ghost attnets = state.peer_attnets;
                let mut rest: Vec<DiscoveredPeer> = ranked;
                let ghost mut done: int = 0;
                assert(all.skip(0) =~= all);
                assert(before + all.take(0) =~= before);
                while rest.len() > 0
                    invariant
                        0 <= done <= all.len(),
                        rest@ == all.skip(done),
                        state.candidates@ == before + all.take(done),
                        state.peer_attnets == attnets,
                    decreases rest@.len(),
                {
                    let peer = rest.remove(0);
                    state.candidates.push_back(peer);
                    proof {
                        done = done + 1;
                        assert(rest@ =~= all.skip(done));
                        assert(state.candidates@ =~= before + all.take(done));
                    }
                }
                assert(all.take(done) =~= all);
                Some(state)
            },
        };
        assert(self@ =~= (P2PView {
            discovery: match old(self)@.discovery {
                Some(d) => Some(DiscoveryView { candidates: d.candidates + all, ..d }),
                None => None,
            },
            ..old(self)@
        }));
    }

    /// Takes the candidates to dial now: the best ones that are neither the node itself nor
    /// connected, as many as peers are missing, and no more than one batch.
    pub fn dial_candidates(&mut self, target_peers: usize, candidate_batch: usize) -> (res: Vec<
        DiscoveredPeer,
    >)
        ensures
            ({
                let budget = dial_budget(
                    old(self)@,
                    target_peers as int,
                    candidate_batch as int,
                );
                &&& res@ == to_dial(old(self)@, budget)
                &&& final(self)@ == after_dialing(old(self)@, budget)
            }),
            old(self)@.wf() ==> final(self)@.wf(),
    {
        let ghost before = self@;
        let connected: usize = self.connected_peers.len();
        let missing: usize = target_peers.saturating_sub(connected);
        let budget: usize = if missing <= candidate_batch {
            missing
        } else {
            candidate_batch
        };
        assert(budget == dial_budget(before, target_peers as int, candidate_batch as int));
        let mut dialed: Vec<DiscoveredPeer> = Vec::new();
        self.discovery = match self.discovery.take() {
            None => None,
            Some(mut state) => {
                let ghost all = state.candidates@;
                let ghost attnets = list_views(state.peer_attnets@);
                assert(dialed@ + dial_run(before, all, budget as int).0 =~= dial_run(
                    before,
                    all,
                    budget as int,
                ).0);
                while dialed.len() < budget && state.candidates.len() > 0
                    invariant
                        dialed@.len() <= budget,
                        self.local_peer_id == before.local,
                        self.connected_peers@ == before.connected,
                        dial_run(before, all, budget as int).0 == dialed@ + dial_run(
                            before,
                            state.candidates@,
                            budget - dialed@.len(),
                        ).0,
                        dial_run(before, all, budget as int).1 == dial_run(
                            before,
                            state.candidates@,
                            budget - dialed@.len(),
                        ).1,
                        list_views(state.peer_attnets@) == attnets_after(attnets, dialed@),
                    decreases state.candidates@.len(),
                {
                    let ghost queue = state.candidates@;
                    let ghost had = dialed@;
                    let candidate = state.candidates.pop_front().unwrap();
                    assert(state.candidates@ =~= queue.skip(1));
                    let skip = candidate.peer_id.same(&self.local_peer_id)
                        || self.connected_peers.contains(&candidate.peer_id);
                    if !skip {
                        let subnets = copy_ids(&candidate.subnets);
                        let ghost known = state.peer_attnets@;
                        state.peer_attnets.insert(candidate.peer_id, subnets);
                        proof {
                            assert(list_views(state.peer_attnets@) =~= list_views(known).insert(
                                candidate.peer_id,
                                candidate.subnets@,
                            ));
                            assert(had.push(candidate).drop_last() =~= had);
                            let left = dial_run(
                                before,
                                queue.skip(1),
                                budget - had.len() - 1,
                            ).0;
                            assert(had + (seq![candidate] + left) =~= had.push(candidate) + left);
                        }
                        dialed.push(candidate);
                    }
                }
                assert(dialed@ + Seq::<DiscoveredPeer>::empty() =~= dialed@);
                Some(state)
            },
        };
        assert(self@ =~= after_dialing(before, budget as int));
        dialed
    }
}

proof fn lemma_dial_run(server: P2PView, candidates: Seq<DiscoveredPeer>, budget: int)
    ensures
        dial_run(server, candidates, budget).0.len() <= most_dialed(budget),
        forall|i: int|
            0 <= i < dial_run(server, candidates, budget).0.len() ==> !passed_over(
                server,
                (#[trigger] dial_run(server, candidates, budget).0[i]).peer_id,
            ),
    decreases candidates.len(),
{
    if budget > 0 && candidates.len() > 0 {
        if passed_over(server, candidates[0].peer_id) {
            lemma_dial_run(server, candidates.skip(1), budget);
        } else {
            lemma_dial_run(server, candidates.skip(1), budget - 1);
            let rest = dial_run(server, candidates.skip(1), budget - 1).0;
            let all = dial_run(server, candidates, budget).0;
            assert forall|i: int| 0 <= i < all.len() implies !passed_over(
                server,
                (#[trigger] all[i]).peer_id,
            ) by {
                if i > 0 {
                    assert(all[i] == rest[i - 1]);
                }
            }
        }
    }
}

/// How many a budget allows.
spec fn most_dialed(budget: int) -> int {
    if budget <= 0 {
        0
    } else {
        budget
    }
}

/// The dial loop dials neither the node itself nor a peer that is connected, and no more than
/// are missing.
pub proof fn law_only_missing_peers_are_dialed(
    server: P2PView,
    target_peers: int,
    batch: int,
    i: int,
)
    requires
        target_peers >= 0,
        batch >= 0,
        0 <= i < to_dial(server, dial_budget(server, target_peers, batch)).len(),
    ensures
        ({
            let dialed = to_dial(server, dial_budget(server, target_peers, batch));
            &&& dialed[i].peer_id != server.local
            &&& !server.connected.contains(dialed[i].peer_id)
            &&& dialed.len() <= batch
            &&& server.connected.len() + dialed.len() <= target_peers
        }),
{
    match server.discovery {
        Some(d) => {
            lemma_dial_run(
                server,
                d.candidates,
                dial_budget(server, target_peers, batch),
            );
        },
        None => {},
    }
}

/// The dial loop stops short of its budget only when no candidate is left.
pub proof fn law_the_budget_is_used(server: P2PView, candidates: Seq<DiscoveredPeer>, budget: int)
    requires
        budget >= 0,
    ensures
        dial_run(server, candidates, budget).0.len() == budget || dial_run(
            server,
            candidates,
            budget,
        ).1.len() == 0,
    decreases candidates.len(),
{
    if budget > 0 && candidates.len() > 0 {
        if passed_over(server, candidates[0].peer_id) {
            law_the_budget_is_used(server, candidates.skip(1), budget);
        } else {
            law_the_budget_is_used(server, candidates.skip(1), budget - 1);
        }
    }
}

/// Every node id that is avoided was refused for good; a contact whose record has not arrived,
/// or that was refused for now, is not held to it.
pub proof fn law_only_refused_contacts_are_avoided(contacts: Seq<Contact>, node_id: H256)
    ensures
        unwanted(contacts).contains(node_id) <==> exists|i: int|
            0 <= i < contacts.len() && (#[trigger] contacts[i]).node_id == node_id
                && contacts[i].admission == Some(
                Err::<DiscoveredPeer, Refusal>(Refusal { permanent: true }),
            ),
    decreases contacts.len(),
{
    let refused = |c: Contact|
        c.node_id == node_id && c.admission == Some(
            Err::<DiscoveredPeer, Refusal>(Refusal { permanent: true }),
        );
    if contacts.len() > 0 {
        let less = contacts.drop_last();
        let last = contacts.last();
        law_only_refused_contacts_are_avoided(less, node_id);
        assert(unwanted(contacts).contains(node_id) <==> unwanted(less).contains(node_id)
            || refused(last)) by {
            if unwanted(less).contains(node_id) {
                let i = unwanted(less).index_of(node_id);
                assert(unwanted(contacts)[i] == node_id);
            }
            if refused(last) {
                assert(unwanted(contacts).last() == node_id);
            }
            if unwanted(contacts).contains(node_id) && !refused(last) {
                let i = unwanted(contacts).index_of(node_id);
                if i < unwanted(less).len() {
                    assert(unwanted(less)[i] == node_id);
                }
            }
        }
        if exists|i: int| 0 <= i < less.len() && refused(#[trigger] less[i]) {
            let i = choose|i: int| 0 <= i < less.len() && refused(#[trigger] less[i]);
            assert(refused(contacts[i]));
        }
        if refused(last) {
            assert(refused(contacts[contacts.len() - 1]));
        }
        if exists|i: int| 0 <= i < contacts.len() && refused(#[trigger] contacts[i]) {
            let i = choose|i: int| 0 <= i < contacts.len() && refused(#[trigger] contacts[i]);
            if i < less.len() {
                assert(refused(less[i]));
            }
        }
    }
}

} // verus!
