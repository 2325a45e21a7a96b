//! What the state of the network side, its parts and its arguments are seen as.
use crate::net::address::{addr_parts, hop_of, AddrPart, Hop};
use crate::net::bootnode::{all_parts, outcome_view, Bootnode, EnrError, EnrErrorView};
use crate::net::identity::text_views;
use crate::net::message_id::bytes_view;
use crate::net::server::{
    discovery_view, fetch_views, session_view, timers_of, BootnodeDial, P2PServer, P2PView,
    PendingRequest,
};
use crate::net::startup::dial_view;
use crate::net::subnets::{ids_view, list_views};
use crate::primitives::{PeerId, H256};
use libp2p::Multiaddr;
use vstd::prelude::*;

verus! {

/// Nothing that the network side keeps is hidden from what it is seen as.
pub proof fn law_the_network_side_is_seen_whole(server: P2PServer)
    ensures
        server@.linked == server.blockchain_linked,
        server@.wire == server.wire,
        server@.connected == server.connected_peers@,
        server@.outbound == server.outbound_requests@,
        server@.bootnodes == server.bootnode_addrs@,
        server@.local == server.local_peer_id,
        server@.fetches == fetch_views(server.pending_root_requests@),
        server@.beacon_fetches == fetch_views(server.beacon_pending_root_requests@),
        server@.names == text_views(server.node_names@),
        server@.session is Some <==> server.range_sync_state is Some,
        server@.session == session_view(server.range_sync_state),
        server@.discovery is Some <==> server.discovery is Some,
        server@.discovery == discovery_view(server.discovery),
{
}

/// A session is seen with its slots, its peers, and how it asks.
pub proof fn law_sessions_are_seen_whole(server: P2PServer)
    ensures
        server.range_sync_state matches Some(session) ==> (server@.session matches Some(view)
            && view.start == session.current_range.start && view.end == session.current_range.end
            && view.heads == session.peer_set@ && view.in_flight == session.in_flight
            && view.max_batch == session.max_batch),
        server.discovery matches Some(kept) ==> (server@.discovery matches Some(view)
            && view.candidates == kept.candidates@ && view.attnets == list_views(
            kept.peer_attnets@,
        )),
{
}

/// Every fetch is seen under its root, with its attempts and the peers that failed it.
pub proof fn law_fetches_are_seen_whole(fetches: Map<H256, PendingRequest>, root: H256)
    ensures
        fetch_views(fetches).contains_key(root) <==> fetches.contains_key(root),
        fetches.contains_key(root) ==> fetch_views(fetches)[root].attempts
            == fetches[root].attempts,
        fetches.contains_key(root) ==> fetch_views(fetches)[root].failed
            == fetches[root].failed_peers@,
{
}

/// Every name and every list of subnets is seen under its peer.
pub proof fn law_names_and_subnets_are_seen_whole(
    names: Map<PeerId, String>,
    attnets: Map<PeerId, Vec<u64>>,
    peer: PeerId,
)
    ensures
        text_views(names).contains_key(peer) <==> names.contains_key(peer),
        names.contains_key(peer) ==> text_views(names)[peer] == names[peer]@,
        list_views(attnets).contains_key(peer) <==> attnets.contains_key(peer),
        attnets.contains_key(peer) ==> list_views(attnets)[peer] == attnets[peer]@,
{
}

/// What may be given or not is seen as given exactly if it is.
pub proof fn law_what_is_given_is_seen(list: &[u64], bytes: &Vec<u8>)
    ensures
        ids_view(Some(list)) == Some(list@),
        ids_view(None) is None,
        bytes_view(Some(bytes)) == Some(bytes@),
        bytes_view(None) is None,
{
}

/// The addresses of a list are seen one by one, and so are those of a bootnode to dial.
pub proof fn law_addresses_are_seen_one_by_one(addrs: Seq<Multiaddr>, dial: BootnodeDial, i: int)
    ensures
        all_parts(addrs).len() == addrs.len(),
        0 <= i < addrs.len() ==> all_parts(addrs)[i] == addr_parts(addrs[i]),
        dial_view(dial).0 == dial.peer_id,
        dial_view(dial).1 == all_parts(dial.addrs@),
{
}

/// A part of an address is a hop as it is, or no hop.
pub proof fn law_hops_are_seen_as_they_are(part: AddrPart, hop: Hop)
    ensures
        hop_of(AddrPart::Hop(hop)) == Some(hop),
        hop_of(part) is Some <==> part is Hop,
{
}

/// A bootnode is seen as it is, and an error with the words that it carries.
pub proof fn law_outcomes_are_seen_whole(bootnode: Bootnode, text: String)
    ensures
        outcome_view(Ok(bootnode)) == Ok::<Bootnode, EnrErrorView>(bootnode),
        outcome_view(Err(EnrError::MissingPrefix)) == Err::<Bootnode, EnrErrorView>(
            EnrErrorView::MissingPrefix,
        ),
        outcome_view(Err(EnrError::MissingKey)) == Err::<Bootnode, EnrErrorView>(
            EnrErrorView::MissingKey,
        ),
        outcome_view(Err(EnrError::MissingIp)) == Err::<Bootnode, EnrErrorView>(
            EnrErrorView::MissingIp,
        ),
        outcome_view(Err(EnrError::NoPort)) == Err::<Bootnode, EnrErrorView>(EnrErrorView::NoPort),
        outcome_view(Err(EnrError::BadKey(text))) == Err::<Bootnode, EnrErrorView>(
            EnrErrorView::BadKey(text@),
        ),
        outcome_view(Err(EnrError::Undecodable(text))) == Err::<Bootnode, EnrErrorView>(
            EnrErrorView::Undecodable(text@),
        ),
{
}

/// The dial loop's timer is armed exactly where discovery is on, and the one of the catch-up
/// session exactly on the beacon network.
pub proof fn law_timers_are_armed_for_what_is_on(server: P2PView)
    ensures
        timers_of(server).discover_peers <==> server.discovery is Some,
        timers_of(server).beacon_resync <==> server.wire is Beacon,
{
}

} // verus!
