//! What holds of the peers that come, go and are dialed.
use crate::net::address::{addr_parts, first_transport};
use crate::net::discovery::{
    admitted, after_dialing, attnets_after, covered_by, dial_budget, dial_run, passed_over,
    starved, step_of, to_dial, unwanted, with_candidates, Contact, DiscoveryStep, Refusal,
};
use crate::net::server::{
    dial_table, BeaconWire, BootnodeDial, DiscoveredPeer, DiscoveryView, LeanWire, P2PView, Wire,
};
use crate::net::subnets::covers;
use crate::net::swarm::{
    action_for, close_reason_of, dial_failure_in, greeting_of, reason_in, redial_of, server_after,
    CloseReason, DialFailure, Direction, Greeting, SwarmAction, SwarmEvent,
};
use crate::primitives::{PeerId, H256};
use crate::text::{has_word, lower_case};
use libp2p::Multiaddr;
use vstd::prelude::*;

verus! {

/// An error tells of a timeout exactly if it speaks of a timeout or of a keepalive, else of the
/// peer's closing exactly if it speaks of a reset, and else of neither.
pub proof fn law_close_reasons(text: Seq<char>)
    ensures
        has_word(text, "timeout"@) ==> reason_in(text) == CloseReason::Timeout,
        has_word(text, "timedout"@) ==> reason_in(text) == CloseReason::Timeout,
        has_word(text, "keepalive"@) ==> reason_in(text) == CloseReason::Timeout,
        reason_in(text) == CloseReason::Timeout ==> has_word(text, "timeout"@) || has_word(
            text,
            "timedout"@,
        ) || has_word(text, "keepalive"@),
        (has_word(text, "reset"@) || has_word(text, "connectionreset"@)) && reason_in(text)
            != CloseReason::Timeout ==> reason_in(text) == CloseReason::RemoteClose,
        reason_in(text) == CloseReason::RemoteClose ==> has_word(text, "reset"@) || has_word(
            text,
            "connectionreset"@,
        ),
{
}

/// A connection that ended without an error was closed by the peer; an error is read in lower
/// case. A dial timed out exactly if its error says so.
pub proof fn law_errors_are_read_in_lower_case(text: Seq<char>)
    ensures
        close_reason_of(None) == CloseReason::RemoteClose,
        close_reason_of(Some(text)) == reason_in(lower_case(text)),
        has_word(text, "timed out"@) <==> dial_failure_in(text) == DialFailure::Timeout,
{
}

/// A peer's first connection makes it one of the connected peers, and changes nothing else; a
/// further one changes nothing.
pub proof fn law_first_connections_count(
    server: P2PView,
    peer: PeerId,
    is_dialer: bool,
    remote: Multiaddr,
    num: u32,
    other: PeerId,
)
    ensures
        ({
            let after = server_after(
                server,
                SwarmEvent::ConnectionEstablished {
                    peer_id: peer,
                    is_dialer,
                    remote,
                    num_established: num,
                },
            );
            &&& num == 1 ==> after.connected.contains(peer)
            &&& other != peer ==> after.connected.contains(other) == server.connected.contains(
                other,
            )
            &&& num != 1 ==> after == server
            &&& after.discovery == server.discovery && after.fetches == server.fetches
                && after.outbound == server.outbound && after.session == server.session
        }),
{
}

/// The end of a peer's last connection takes it, and what is known of its subnets, away, and
/// nothing of any other peer; the end of another one changes nothing.
pub proof fn law_last_connections_count(
    server: P2PView,
    peer: PeerId,
    is_dialer: bool,
    num: u32,
    cause: Option<String>,
    other: PeerId,
)
    ensures
        ({
            let after = server_after(
                server,
                SwarmEvent::ConnectionClosed {
                    peer_id: peer,
                    is_dialer,
                    num_established: num,
                    cause,
                },
            );
            &&& num > 0 ==> after == server
            &&& num == 0 ==> !after.connected.contains(peer)
            &&& other != peer ==> after.connected.contains(other) == server.connected.contains(
                other,
            )
            &&& server.discovery is None ==> after.discovery is None
            &&& server.discovery matches Some(d) ==> (after.discovery matches Some(e)
                && e.candidates == d.candidates && (num == 0 ==> !e.attnets.contains_key(peer))
                && (other != peer ==> e.attnets.contains_key(other) == d.attnets.contains_key(
                other,
            ) && (d.attnets.contains_key(other) ==> e.attnets[other] == d.attnets[other])))
            &&& after.fetches == server.fetches && after.outbound == server.outbound
                && after.session == server.session
        }),
{
}

/// A failed dial disconnects nobody, and takes away what is known of the dialed peer's subnets
/// alone.
pub proof fn law_failed_dials_disconnect_nobody(
    server: P2PView,
    peer: Option<PeerId>,
    error: String,
    other: PeerId,
)
    ensures
        ({
            let after = server_after(server, SwarmEvent::OutgoingConnectionError { peer, error });
            &&& after.connected == server.connected
            &&& peer is None ==> after == server
            &&& server.discovery matches Some(d) ==> (after.discovery matches Some(e)
                && e.candidates == d.candidates && (peer != Some(other)
                ==> e.attnets.contains_key(other) == d.attnets.contains_key(other) && (
            d.attnets.contains_key(other) ==> e.attnets[other] == d.attnets[other])) && (peer
                == Some(other) ==> !e.attnets.contains_key(other)))
            &&& after.fetches == server.fetches && after.outbound == server.outbound
                && after.session == server.session
        }),
{
}

/// Other events change nothing.
pub proof fn law_other_events_change_nothing(
    server: P2PView,
    peer: Option<PeerId>,
    refused_at_capacity: bool,
)
    ensures
        server_after(server, SwarmEvent::ReqResp) == server,
        server_after(server, SwarmEvent::GossipMessage) == server,
        server_after(server, SwarmEvent::Other) == server,
        server_after(
            server,
            (SwarmEvent::IncomingConnectionError { peer, refused_at_capacity }),
        ) == server,
{
}

/// A peer is dialed again, after twelve seconds, exactly if it is a bootnode and not connected.
pub proof fn law_only_missing_bootnodes_are_dialed_again(server: P2PView, peer: PeerId)
    ensures
        server.bootnodes.contains_key(peer) && !server.connected.contains(peer) ==> redial_of(
            server,
            peer,
        ) == Some(12u64),
        !server.bootnodes.contains_key(peer) || server.connected.contains(peer) ==> redial_of(
            server,
            peer,
        ) is None,
{
}

/// A new peer is greeted in the words of the wire that the node speaks, and its name, the side
/// that dialed, the transport and the number of connected peers are told as they are.
pub proof fn law_new_peers_are_greeted(
    server: P2PView,
    peer: PeerId,
    is_dialer: bool,
    remote: Multiaddr,
    num: u32,
    after: P2PView,
    action: SwarmAction,
)
    requires
        action_for(
            server,
            (SwarmEvent::ConnectionEstablished {
                peer_id: peer,
                is_dialer,
                remote,
                num_established: num,
            }),
            after,
            action,
        ),
    ensures
        num == 1 ==> (action matches SwarmAction::Greet {
            name,
            direction,
            transport,
            peer_count,
            greeting,
        } && name@ == server.name_of(Some(peer)) && (direction == Direction::Outbound
            <==> is_dialer) && transport == first_transport(addr_parts(remote)) && peer_count
            == after.connected.len() && greeting == greeting_of(server.wire)),
        num != 1 ==> action == SwarmAction::Ignore,
{
}

/// A peer that left for good is told of with its name, who had dialed and why it left, and is
/// dialed again exactly if it is a bootnode.
pub proof fn law_peers_that_left_are_told_of(
    server: P2PView,
    peer: PeerId,
    is_dialer: bool,
    num: u32,
    cause: Option<String>,
    after: P2PView,
    action: SwarmAction,
)
    requires
        ({
            let event = SwarmEvent::ConnectionClosed {
                peer_id: peer,
                is_dialer,
                num_established: num,
                cause,
            };
            action_for(server, event, after, action) && after == server_after(server, event)
        }),
    ensures
        num > 0 ==> action == SwarmAction::Ignore,
        num == 0 ==> (action matches SwarmAction::CountLeft {
            name,
            direction,
            reason,
            peer_count,
            redial_in_secs,
        } && name@ == server.name_of(Some(peer)) && (direction == Direction::Outbound
            <==> is_dialer) && (cause is None ==> reason == CloseReason::RemoteClose) && (
        cause matches Some(text) ==> reason == reason_in(lower_case(text@))) && peer_count
            == after.connected.len() && (redial_in_secs is Some <==> server.bootnodes.contains_key(
            peer,
        ))),
{
}

/// A failed dial is told of with the peer's name and why it failed, and repeated exactly if the
/// peer is a bootnode that is not connected.
pub proof fn law_failed_dials_are_told_of(
    server: P2PView,
    peer: PeerId,
    error: String,
    after: P2PView,
    action: SwarmAction,
)
    requires
        ({
            let event = SwarmEvent::OutgoingConnectionError { peer: Some(peer), error };
            action_for(server, event, after, action) && after == server_after(server, event)
        }),
    ensures
        action matches SwarmAction::CountFailedDial { name, failure, redial_in_secs } && name@
            == server.name_of(Some(peer)) && failure == dial_failure_in(lower_case(error@)) && (
        redial_in_secs is Some <==> server.bootnodes.contains_key(peer)
            && !server.connected.contains(peer)),
{
}

/// A dial to nobody in particular is not repeated; a connection that came in and failed is told
/// of with whether our own limit refused it.
pub proof fn law_failures_of_unknown_peers(
    server: P2PView,
    peer: Option<PeerId>,
    error: String,
    refused: bool,
    after: P2PView,
    dial: SwarmAction,
    incoming: SwarmAction,
)
    requires
        action_for(
            server,
            (SwarmEvent::OutgoingConnectionError { peer: None, error }),
            after,
            dial,
        ),
        action_for(
            server,
            (SwarmEvent::IncomingConnectionError { peer, refused_at_capacity: refused }),
            after,
            incoming,
        ),
    ensures
        dial matches SwarmAction::CountFailedDial { name, failure, redial_in_secs } && name@
            == "unknown"@ && redial_in_secs is None && failure == dial_failure_in(
            lower_case(error@),
        ),
        incoming matches SwarmAction::CountRefused { name, at_capacity } && at_capacity == refused
            && name@ == server.name_of(peer),
{
}

/// Gossip goes to the side whose wire the node speaks, and requests and responses to their own
/// handler.
pub proof fn law_messages_go_to_their_side(
    server: P2PView,
    after: P2PView,
    gossip: SwarmAction,
    exchange: SwarmAction,
    other: SwarmAction,
)
    requires
        action_for(server, SwarmEvent::GossipMessage, after, gossip),
        action_for(server, SwarmEvent::ReqResp, after, exchange),
        action_for(server, SwarmEvent::Other, after, other),
    ensures
        server.wire is Lean ==> gossip == SwarmAction::HandleLeanGossip,
        server.wire is Beacon ==> gossip == SwarmAction::HandleBeaconGossip,
        exchange == SwarmAction::HandleReqResp,
        other == SwarmAction::Ignore,
{
}

/// A lean node greets with its lean status, a beacon node with its status on its own fork.
pub proof fn law_greetings_follow_the_wire(lean: LeanWire, beacon: BeaconWire)
    ensures
        greeting_of(Wire::Lean(lean)) is Lean,
        greeting_of(Wire::Beacon(beacon)) == (Greeting::Beacon {
            fork_digest: beacon.fork_digest,
        }),
{
}

/// A peer goes by the name that is known for it, and is unknown otherwise.
pub proof fn law_peers_go_by_their_names(server: P2PView, peer: PeerId)
    ensures
        server.names.contains_key(peer) ==> server.name_of(Some(peer)) == server.names[peer],
        !server.names.contains_key(peer) ==> server.name_of(Some(peer)) == "unknown"@,
        server.name_of(None) == "unknown"@,
{
}

/// A bootnode is known by the addresses of its last entry, and nobody else is known as one.
pub proof fn law_bootnodes_are_known_by_their_last_entry(
    dials: Seq<BootnodeDial>,
    dial: BootnodeDial,
    other: PeerId,
)
    ensures
        dial_table(dials.push(dial)).contains_pair(dial.peer_id, dial.addrs),
        other != dial.peer_id ==> dial_table(dials.push(dial)).contains_key(other) == dial_table(
            dials,
        ).contains_key(other),
        other != dial.peer_id && dial_table(dials).contains_key(other) ==> dial_table(
            dials.push(dial),
        )[other] == dial_table(dials)[other],
        dial_table(Seq::empty()) == Map::<PeerId, Vec<Multiaddr>>::empty(),
{
    assert(dials.push(dial).drop_last() =~= dials);
}

/// What is admitted of two lists of contacts is what is admitted of each, in order; of one contact
/// its peer is admitted exactly if its record was.
pub proof fn law_admitted_contacts_are_kept_in_order(
    a: Seq<Contact>,
    b: Seq<Contact>,
    contact: Contact,
    peer: DiscoveredPeer,
    refusal: Refusal,
)
    ensures
        admitted(a + b) == admitted(a) + admitted(b),
        unwanted(a + b) == unwanted(a) + unwanted(b),
        contact.admission is None ==> admitted(seq![contact]).len() == 0 && unwanted(
            seq![contact],
        ).len() == 0,
        contact.admission == Some(Ok::<DiscoveredPeer, Refusal>(peer)) ==> admitted(seq![contact])
            == seq![peer] && unwanted(seq![contact]).len() == 0,
        contact.admission == Some(Err::<DiscoveredPeer, Refusal>(refusal)) ==> admitted(
            seq![contact],
        ).len() == 0 && unwanted(seq![contact]) == (if refusal.permanent {
            seq![contact.node_id]
        } else {
            Seq::<H256>::empty()
        }),
    decreases b.len(),
{
    let one = seq![contact];
    assert(one.drop_last() =~= Seq::<Contact>::empty());
    assert(one.last() == contact);
    assert(admitted(Seq::<Contact>::empty()) =~= Seq::empty());
    assert(unwanted(Seq::<Contact>::empty()) =~= Seq::empty());
    if contact.admission == Some(Ok::<DiscoveredPeer, Refusal>(peer)) {
        assert(admitted(one) =~= seq![peer]);
    }
    if contact.admission == Some(Err::<DiscoveredPeer, Refusal>(refusal)) && refusal.permanent {
        assert(unwanted(one) =~= seq![contact.node_id]);
    }
    if b.len() == 0 {
        assert(a + b =~= a);
        assert(admitted(a) + admitted(b) =~= admitted(a));
        assert(unwanted(a) + unwanted(b) =~= unwanted(a));
    } else {
        law_admitted_contacts_are_kept_in_order(a, b.drop_last(), contact, peer, refusal);
        assert((a + b).drop_last() =~= a + b.drop_last());
        assert((a + b).last() == b.last());
        assert(admitted(a + b) =~= admitted(a) + admitted(b));
        assert(unwanted(a + b) =~= unwanted(a) + unwanted(b));
    }
}

/// The candidates are gone through in order, up to some place: up to there all that are neither
/// the node itself nor connected are dialed, in order, and from there on all are left.
pub proof fn law_candidates_are_gone_through_in_order(
    server: P2PView,
    candidates: Seq<DiscoveredPeer>,
    budget: int,
) -> (upto: int)
    ensures
        0 <= upto <= candidates.len(),
        dial_run(server, candidates, budget).1 == candidates.skip(upto),
        dial_run(server, candidates, budget).0 == candidates.take(upto).filter(
            |c: DiscoveredPeer| c.peer_id != server.local && !server.connected.contains(c.peer_id),
        ),
    decreases candidates.len(),
{
    let wanted = |c: DiscoveredPeer|
        c.peer_id != server.local && !server.connected.contains(c.peer_id);
    reveal(Seq::filter);
    if budget <= 0 || candidates.len() == 0 {
        assert(candidates.skip(0) =~= candidates);
        assert(candidates.take(0).filter(wanted) =~= Seq::empty());
        0
    } else {
        let rest = candidates.skip(1);
        let spent: int = if passed_over(server, candidates[0].peer_id) {
            0
        } else {
            1
        };
        let n = law_candidates_are_gone_through_in_order(server, rest, budget - spent);
        assert(rest.skip(n) =~= candidates.skip(n + 1));
        assert(candidates.take(n + 1) =~= seq![candidates[0]] + rest.take(n));
        lemma_filter_front(candidates[0], rest.take(n), wanted);
        assert(dial_run(server, candidates, budget).0 =~= candidates.take(n + 1).filter(wanted));
        n + 1
    }
}

proof fn lemma_filter_front(
    first: DiscoveredPeer,
    rest: Seq<DiscoveredPeer>,
    wanted: spec_fn(DiscoveredPeer) -> bool,
)
    ensures
        (seq![first] + rest).filter(wanted) == (if wanted(first) {
            seq![first] + rest.filter(wanted)
        } else {
            rest.filter(wanted)
        }),
    decreases rest.len(),
{
    reveal(Seq::filter);
    let all = seq![first] + rest;
    if rest.len() == 0 {
        assert(all.drop_last() =~= Seq::<DiscoveredPeer>::empty());
        assert(all.last() == first);
        assert(all.drop_last().filter(wanted) =~= Seq::<DiscoveredPeer>::empty());
        assert(rest.filter(wanted) =~= Seq::<DiscoveredPeer>::empty());
        if wanted(first) {
            assert(all.filter(wanted) =~= seq![first] + rest.filter(wanted));
        }
    } else {
        assert(all.drop_last() =~= seq![first] + rest.drop_last());
        assert(all.last() == rest.last());
        lemma_filter_front(first, rest.drop_last(), wanted);
        if wanted(first) {
            assert(all.filter(wanted) =~= seq![first] + rest.filter(wanted));
        }
    }
}

/// The dial loop dials as many as are missing to the target, or one batch if that is less.
pub proof fn law_the_shortfall_is_dialed(server: P2PView, target_peers: int, batch: int)
    requires
        target_peers >= 0,
        batch >= 0,
    ensures
        ({
            let budget = dial_budget(server, target_peers, batch);
            &&& 0 <= budget <= batch
            &&& server.connected.len() >= target_peers ==> budget == 0
            &&& server.connected.len() < target_peers ==> budget == batch || budget
                + server.connected.len() == target_peers
            &&& server.connected.len() + budget <= target_peers || budget == 0
        }),
{
}

/// Dialing takes the dialed and the passed over candidates out, and keeps the subnets of each
/// dialed peer; nothing else changes.
pub proof fn law_dialing_records_subnets(server: P2PView, d: DiscoveryView, budget: int)
    requires
        server.discovery == Some(d),
    ensures
        to_dial(server, budget) == dial_run(server, d.candidates, budget).0,
        after_dialing(server, budget).discovery matches Some(e) && e.candidates == dial_run(
            server,
            d.candidates,
            budget,
        ).1 && e.attnets == attnets_after(d.attnets, to_dial(server, budget)),
        after_dialing(server, budget).connected == server.connected,
        after_dialing(server, budget).fetches == server.fetches,
        after_dialing(server, budget).outbound == server.outbound,
        after_dialing(server, budget).session == server.session,
{
}

/// A dialed peer's subnets are those that it advertises, and those of others stay.
pub proof fn law_dialed_peers_keep_their_subnets(
    attnets: Map<PeerId, Seq<u64>>,
    dialed: Seq<DiscoveredPeer>,
    peer: DiscoveredPeer,
    other: PeerId,
)
    ensures
        attnets_after(attnets, dialed.push(peer)).contains_pair(peer.peer_id, peer.subnets@),
        other != peer.peer_id ==> attnets_after(attnets, dialed.push(peer)).contains_key(other)
            == attnets_after(attnets, dialed).contains_key(other),
        other != peer.peer_id && attnets_after(attnets, dialed).contains_key(other)
            ==> attnets_after(attnets, dialed.push(peer))[other] == attnets_after(
            attnets,
            dialed,
        )[other],
        attnets_after(attnets, Seq::empty()) == attnets,
{
    assert(dialed.push(peer).drop_last() =~= dialed);
}

/// The loop rests exactly if there are enough peers or discovery is off, and draws contacts
/// exactly if no candidates are left.
pub proof fn law_the_dial_loop_goes_on_while_peers_are_missing(
    server: P2PView,
    target_peers: int,
    peer: PeerId,
)
    ensures
        server.connected.len() >= target_peers ==> step_of(server, target_peers)
            == DiscoveryStep::Rest,
        server.discovery is None ==> step_of(server, target_peers) == DiscoveryStep::Rest,
        server.connected.len() < target_peers ==> (server.discovery matches Some(d) ==> step_of(
            server,
            target_peers,
        ) == (if d.candidates.len() == 0 {
            DiscoveryStep::Refill
        } else {
            DiscoveryStep::Dial
        })),
        starved(server) ==> !server.connected.contains(peer),
        (forall|p: PeerId| !server.connected.contains(p)) ==> starved(server),
{
    if forall|p: PeerId| !server.connected.contains(p) {
        assert(server.connected =~= Set::<PeerId>::empty());
    }
}

/// New candidates come behind those that are left, in their order, and nothing else changes.
pub proof fn law_new_candidates_come_last(
    server: P2PView,
    d: DiscoveryView,
    ranked: Seq<DiscoveredPeer>,
    i: int,
)
    requires
        server.discovery == Some(d),
    ensures
        with_candidates(server, ranked).discovery matches Some(e) && {
            &&& e.candidates.len() == d.candidates.len() + ranked.len()
            &&& 0 <= i < d.candidates.len() ==> e.candidates[i] == d.candidates[i]
            &&& 0 <= i < ranked.len() ==> e.candidates[d.candidates.len() + i] == ranked[i]
            &&& e.attnets == d.attnets
        },
        with_candidates(server, ranked).connected == server.connected,
        with_candidates(server, ranked).fetches == server.fetches,
        with_candidates(server, ranked).outbound == server.outbound,
        with_candidates(server, ranked).session == server.session,
{
}

/// A subnet is covered exactly if some connected peer that was dialed from discovery advertises
/// it.
pub proof fn law_a_subnet_is_covered_by_a_connected_peer(
    server: P2PView,
    d: DiscoveryView,
    peer: PeerId,
    subnet: u64,
)
    requires
        server.discovery == Some(d),
    ensures
        server.connected.contains(peer) && d.attnets.contains_key(peer)
            && d.attnets[peer].contains(subnet) ==> covered_by(server).contains(subnet),
        covered_by(server).contains(subnet) ==> exists|p: PeerId|
            server.connected.contains(p) && #[trigger] d.attnets.contains_key(p)
                && d.attnets[p].contains(subnet),
{
    if covers(d.attnets, server.connected, subnet) {
        let p = choose|p: PeerId| #[trigger]
            d.attnets.contains_key(p) && server.connected.contains(p) && d.attnets[p].contains(
                subnet,
            );
        assert(server.connected.contains(p) && d.attnets.contains_key(p));
    }
}

} // verus!
