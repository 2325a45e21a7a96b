//! Attestation subnets: which ones to subscribe to, and which ones peers cover.
use crate::keyed::{distinct_keys, entries_map, has_entry, lemma_entry_in_map, KeyMap, KeySet};
use crate::primitives::PeerId;
use std::collections::HashSet;
use vstd::prelude::*;

verus! {

broadcast use vstd::std_specs::hash::group_hash_axioms;

/// Whether a validator of `ids` votes on `subnet`.
pub open spec fn own_subnet(ids: Seq<u64>, committees: int, subnet: u64) -> bool {
    exists|i: int| 0 <= i < ids.len() && (#[trigger] ids[i]) as int % committees == subnet
}

/// The subnets that the validators of `ids` vote on.
pub open spec fn own_subnets(ids: Seq<u64>, committees: int) -> Set<u64> {
    Set::new(|subnet: u64| own_subnet(ids, committees, subnet))
}

/// The subnets that a node subscribes to.
pub open spec fn subscription(
    ids: Seq<u64>,
    committees: int,
    is_aggregator: bool,
    extra: Option<Seq<u64>>,
) -> Set<u64> {
    let own = own_subnets(ids, committees);
    if is_aggregator {
        let all = match extra {
            Some(more) => own.union(more.to_set()),
            None => own,
        };
        if all == Set::<u64>::empty() {
            Set::empty().insert(0)
        } else {
            all
        }
    } else {
        own
    }
}

/// What an optional list of subnets holds.
pub open spec fn ids_view(ids: Option<&[u64]>) -> Option<Seq<u64>> {
    match ids {
        Some(list) => Some(list@),
        None => None,
    }
}

proof fn lemma_own_subnets_step(ids: Seq<u64>, committees: int, n: int)
    requires
        0 < committees <= u64::MAX,
        0 <= n < ids.len(),
    ensures
        own_subnets(ids.take(n + 1), committees) == own_subnets(ids.take(n), committees).insert(
            (ids[n] as int % committees) as u64,
        ),
{
    let more = ids.take(n + 1);
    let less = ids.take(n);
    vstd::arithmetic::div_mod::lemma_mod_bound(ids[n] as int, committees);
    assert forall|subnet: u64| own_subnet(more, committees, subnet) <==> (own_subnet(
        less,
        committees,
        subnet,
    ) || subnet == ids[n] as int % committees) by {
        if own_subnet(more, committees, subnet) {
            let i = choose|i: int|
                0 <= i < more.len() && (#[trigger] more[i]) as int % committees == subnet;
            if i < n {
                assert(less[i] as int % committees == subnet);
            }
        }
        if own_subnet(less, committees, subnet) {
            let i = choose|i: int|
                0 <= i < less.len() && (#[trigger] less[i]) as int % committees == subnet;
            assert(more[i] as int % committees == subnet);
        }
        if subnet == ids[n] as int % committees {
            assert(more[n] as int % committees == subnet);
        }
    }
    assert(own_subnets(more, committees) =~= own_subnets(less, committees).insert(
        (ids[n] as int % committees) as u64,
    ));
}

proof fn lemma_take_to_set(ids: Seq<u64>, n: int)
    requires
        0 <= n < ids.len(),
    ensures
        ids.take(n + 1).to_set() == ids.take(n).to_set().insert(ids[n]),
{
    assert forall|x: u64| ids.take(n).to_set().insert(ids[n]).contains(x) implies ids.take(
        n + 1,
    ).contains(x) by {
        if x == ids[n] {
            assert(ids.take(n + 1)[n] == x);
        } else {
            let i = ids.take(n).index_of(x);
            assert(ids.take(n + 1)[i] == x);
        }
    }
    assert(ids.take(n + 1).to_set() =~= ids.take(n).to_set().insert(ids[n]));
}

/// The attestation subnets that a node subscribes to: the subnet of each of its validators, and
/// for an aggregator the given ones as well, or subnet 0 where there would be none.
pub fn attestation_subscription_subnets(
    validator_ids: &[u64],
    attestation_committee_count: u64,
    is_aggregator: bool,
    aggregate_subnet_ids: Option<&[u64]>,
) -> (res: HashSet<u64>)
    requires
        attestation_committee_count > 0 || validator_ids@.len() == 0,
    ensures
        res@ == subscription(
            validator_ids@,
            attestation_committee_count as int,
            is_aggregator,
            ids_view(aggregate_subnet_ids),
        ),
{
    let mut subnets: HashSet<u64> = HashSet::new();
    let mut i: usize = 0;
    assert(own_subnets(validator_ids@.take(0), attestation_committee_count as int)
        =~= Set::empty());
    while i < validator_ids.len()
        invariant
            i <= validator_ids@.len(),
            attestation_committee_count > 0 || validator_ids@.len() == 0,
            subnets@ == own_subnets(
                validator_ids@.take(i as int),
                attestation_committee_count as int,
            ),
        decreases validator_ids@.len() - i,
    {
        proof {
            lemma_own_subnets_step(
                validator_ids@,
                attestation_committee_count as int,
                i as int,
            );
        }
        subnets.insert(validator_ids[i] % attestation_committee_count);
        i = i + 1;
    }
    assert(validator_ids@.take(i as int) =~= validator_ids@);
    if is_aggregator {
        let ghost own = subnets@;
        match aggregate_subnet_ids {
            Some(ids) => {
                let mut j: usize = 0;
                assert(ids@.take(0).to_set() =~= Set::empty());
                assert(own.union(ids@.take(0).to_set()) =~= own);
                while j < ids.len()
                    invariant
                        j <= ids@.len(),
                        subnets@ == own.union(ids@.take(j as int).to_set()),
                    decreases ids@.len() - j,
                {
                    proof {
                        lemma_take_to_set(ids@, j as int);
                    }
                    subnets.insert(ids[j]);
                    j = j + 1;
                    assert(subnets@ =~= own.union(ids@.take(j as int).to_set()));
                }
                assert(ids@.take(j as int) =~= ids@);
            },
            None => {},
        }
        if subnets.is_empty() {
            assert(subnets@ =~= Set::empty());
            subnets.insert(0);
        }
    }
    subnets
}

/// The least subnet of a node's own validators, which stands for the node in its metrics.
pub fn committee_metric_subnet(validator_ids: &Vec<u64>, attestation_committee_count: u64) -> (res:
    u64)
    requires
        attestation_committee_count > 0 || validator_ids@.len() == 0,
    ensures
        validator_ids@.len() == 0 ==> res == 0,
        validator_ids@.len() > 0 ==> own_subnet(
            validator_ids@,
            attestation_committee_count as int,
            res,
        ),
        forall|i: int|
            0 <= i < validator_ids@.len() ==> res <= (#[trigger] validator_ids@[i]) as int
                % attestation_committee_count as int,
{
    let mut least: Option<u64> = None;
    let mut i: usize = 0;
    while i < validator_ids.len()
        invariant
            i <= validator_ids@.len(),
            attestation_committee_count > 0 || validator_ids@.len() == 0,
            i == 0 <==> least is None,
            least matches Some(subnet) ==> {
                &&& own_subnet(validator_ids@, attestation_committee_count as int, subnet)
                &&& forall|j: int|
                    0 <= j < i ==> subnet <= (#[trigger] validator_ids@[j]) as int
                        % attestation_committee_count as int
            },
        decreases validator_ids@.len() - i,
    {
        let subnet: u64 = validator_ids[i] % attestation_committee_count;
        assert(validator_ids@[i as int] as int % attestation_committee_count as int == subnet);
        least = match least {
            Some(l) => if subnet < l {
                Some(subnet)
            } else {
                Some(l)
            },
            None => Some(subnet),
        };
        i = i + 1;
    }
    match least {
        Some(l) => l,
        None => 0,
    }
}

/// Whether a connected peer of `attnets` covers `subnet`.
pub open spec fn covers(
    attnets: Map<PeerId, Seq<u64>>,
    connected: Set<PeerId>,
    subnet: u64,
) -> bool {
    exists|p: PeerId| #[trigger]
        attnets.contains_key(p) && connected.contains(p) && attnets[p].contains(subnet)
}

/// The subnets that connected peers of `attnets` cover.
pub open spec fn covered(attnets: Map<PeerId, Seq<u64>>, connected: Set<PeerId>) -> Set<u64> {
    Set::new(|subnet: u64| covers(attnets, connected, subnet))
}

/// The lists that the values of a map stand for.
pub open spec fn list_views(attnets: Map<PeerId, Vec<u64>>) -> Map<PeerId, Seq<u64>> {
    attnets.map_values(|v: Vec<u64>| v@)
}

/// Whether one of the first `n` entries is that of a connected peer that covers `subnet`.
spec fn covered_so_far(
    order: Seq<(PeerId, Vec<u64>)>,
    connected: Set<PeerId>,
    n: int,
    subnet: u64,
) -> bool {
    exists|i: int|
        0 <= i < n && connected.contains((#[trigger] order[i]).0) && order[i].1@.contains(subnet)
}

proof fn lemma_covered_in_order(
    order: Seq<(PeerId, Vec<u64>)>,
    connected: Set<PeerId>,
    subnet: u64,
)
    requires
        distinct_keys(order),
    ensures
        covered_so_far(order, connected, order.len() as int, subnet) <==> covers(
            list_views(entries_map(order)),
            connected,
            subnet,
        ),
{
    let attnets = list_views(entries_map(order));
    if covered_so_far(order, connected, order.len() as int, subnet) {
        let i = choose|i: int|
            0 <= i < order.len() && connected.contains((#[trigger] order[i]).0)
                && order[i].1@.contains(subnet);
        lemma_entry_in_map(order, i);
        assert(attnets.contains_key(order[i].0));
    }
    if covers(attnets, connected, subnet) {
        let p = choose|p: PeerId| #[trigger]
            attnets.contains_key(p) && connected.contains(p) && attnets[p].contains(subnet);
        assert(has_entry(order, p));
        let i = choose|i: int| 0 <= i < order.len() && (#[trigger] order[i]).0 == p;
        lemma_entry_in_map(order, i);
        assert(order[i].1@.contains(subnet));
    }
}

/// The subnets covered by peers that are connected now. A peer whose subnets are not known
/// covers none.
pub fn covered_subnets(
    peer_attnets: &KeyMap<PeerId, Vec<u64>>,
    connected_peers: &KeySet<PeerId>,
) -> (res: HashSet<u64>)
    ensures
        res@ == covered(list_views(peer_attnets@), connected_peers@),
{
    let total: usize = peer_attnets.len();
    let ghost order = peer_attnets.order();
    let mut subnets: HashSet<u64> = HashSet::new();
    let mut i: usize = 0;
    while i < total
        invariant
            i <= total,
            order == peer_attnets.order(),
            total == order.len(),
            forall|s: u64| #[trigger]
                subnets@.contains(s) <==> covered_so_far(order, connected_peers@, i as int, s),
        decreases total - i,
    {
        let peer = peer_attnets.key_at(i);
        let ids = peer_attnets.value_at(i);
        let ghost before = subnets@;
        let included = connected_peers.contains(&peer);
        if included {
            let mut j: usize = 0;
            assert(ids@.take(0).to_set() =~= Set::empty());
            assert(before.union(ids@.take(0).to_set()) =~= before);
            while j < ids.len()
                invariant
                    j <= ids@.len(),
                    subnets@ == before.union(ids@.take(j as int).to_set()),
                decreases ids@.len() - j,
            {
                proof {
                    lemma_take_to_set(ids@, j as int);
                }
                subnets.insert(ids[j]);
                j = j + 1;
                assert(subnets@ =~= before.union(ids@.take(j as int).to_set()));
            }
            assert(ids@.take(j as int) =~= ids@);
        }
        proof {
            assert forall|s: u64| #[trigger] subnets@.contains(s) <==> covered_so_far(
                order,
                connected_peers@,
                i + 1,
                s,
            ) by {
                if covered_so_far(order, connected_peers@, i as int, s) {
                    let k = choose|k: int|
                        0 <= k < i && connected_peers@.contains((#[trigger] order[k]).0)
                            && order[k].1@.contains(s);
                    assert(connected_peers@.contains(order[k].0) && order[k].1@.contains(s));
                }
                if included && ids@.contains(s) {
                    assert(connected_peers@.contains(order[i as int].0)
                        && order[i as int].1@.contains(s));
                }
                if covered_so_far(order, connected_peers@, i + 1, s) {
                    let k = choose|k: int|
                        0 <= k < i + 1 && connected_peers@.contains((#[trigger] order[k]).0)
                            && order[k].1@.contains(s);
                    if k < i {
                        assert(covered_so_far(order, connected_peers@, i as int, s));
                    }
                }
            }
        }
        i = i + 1;
    }
    proof {
        assert forall|s: u64| #[trigger] subnets@.contains(s) <==> covered(
            list_views(peer_attnets@),
            connected_peers@,
        ).contains(s) by {
            lemma_covered_in_order(order, connected_peers@, s);
        }
        assert(subnets@ =~= covered(list_views(peer_attnets@), connected_peers@));
    }
    subnets
}

/// An aggregator always subscribes to some subnet.
pub proof fn law_aggregator_subscribes_to_something(
    ids: Seq<u64>,
    committees: int,
    extra: Option<Seq<u64>>,
)
    ensures
        subscription(ids, committees, true, extra) != Set::<u64>::empty(),
{
    let own = own_subnets(ids, committees);
    let all = match extra {
        Some(more) => own.union(more.to_set()),
        None => own,
    };
    if all == Set::<u64>::empty() {
        assert(subscription(ids, committees, true, extra).contains(0));
    }
}

/// Every validator's own subnet is subscribed to, whatever the node's role.
pub proof fn law_validators_hear_their_own_subnet(
    ids: Seq<u64>,
    committees: int,
    is_aggregator: bool,
    extra: Option<Seq<u64>>,
    i: int,
)
    requires
        0 < committees <= u64::MAX,
        0 <= i < ids.len(),
    ensures
        subscription(ids, committees, is_aggregator, extra).contains(
            (ids[i] as int % committees) as u64,
        ),
{
    vstd::arithmetic::div_mod::lemma_mod_bound(ids[i] as int, committees);
    let subnet = (ids[i] as int % committees) as u64;
    assert(own_subnet(ids, committees, subnet));
    assert(own_subnets(ids, committees).contains(subnet));
    assert(!Set::<u64>::empty().contains(subnet));
}

/// A node that is no aggregator subscribes to its validators' subnets alone.
pub proof fn law_extra_subnets_are_for_aggregators(
    ids: Seq<u64>,
    committees: int,
    extra: Option<Seq<u64>>,
)
    ensures
        subscription(ids, committees, false, extra) == own_subnets(ids, committees),
{
}

/// A peer that disconnects covers nothing, and one more connected peer takes no subnet away.
pub proof fn law_only_connected_peers_cover(
    attnets: Map<PeerId, Seq<u64>>,
    connected: Set<PeerId>,
    peer: PeerId,
)
    ensures
        covered(attnets, Set::empty()) == Set::<u64>::empty(),
        covered(attnets, connected).subset_of(covered(attnets, connected.insert(peer))),
{
    assert(covered(attnets, Set::empty()) =~= Set::<u64>::empty());
    assert forall|s: u64| covers(attnets, connected, s) implies covers(
        attnets,
        connected.insert(peer),
        s,
    ) by {
        let p = choose|p: PeerId| #[trigger]
            attnets.contains_key(p) && connected.contains(p) && attnets[p].contains(s);
        assert(attnets.contains_key(p) && connected.insert(peer).contains(p));
    }
}

} // verus!
