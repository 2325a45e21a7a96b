//! What a node sets up when it starts.
use crate::net::address::{
    addr_parts, quic_addr, quic_parts, tcp_addr, tcp_parts, AddrPart, IpAddr,
};
use crate::net::bootnode::{all_parts, bootnode_dial_addrs, dial_parts, Bootnode};
use crate::net::identity::{peer_id_of_secret, peer_of_key, peer_of_secret, public_to_peer};
use crate::net::server::BootnodeDial;
use crate::net::settings::{
    gossip_params, gossipsub_config, unlimited_connections, ConnectionLimits, GossipsubParams,
    LEAN_SEEN_TTL_SECS,
};
use crate::net::subnets::{committee_metric_subnet, own_subnet};
use crate::primitives::{Key, PeerId};
use libp2p::Multiaddr;
use std::collections::HashSet;
use vstd::prelude::*;

verus! {

/// What a node is started with. The subscribed subnets are fixed at startup: a node that may
/// become an aggregator later subscribes to the subnets of that role from the start.
pub struct SwarmConfig {
    /// The node's secret key.
    pub node_key: Vec<u8>,
    /// The nodes that are known from the start.
    pub bootnodes: Vec<Bootnode>,
    /// The IP address to listen on.
    pub listen_ip: IpAddr,
    /// The port to listen on, over QUIC and over TCP.
    pub listen_port: u16,
    /// The validators whose keys this node holds.
    pub validator_ids: Vec<u64>,
    /// Number of attestation committees.
    pub attestation_committee_count: u64,
    /// The attestation subnets to subscribe to.
    pub subscription_subnets: HashSet<u64>,
}

/// What a node sets up.
pub struct SwarmPlan {
    /// The node's own peer id.
    pub local_peer_id: PeerId,
    /// The bootnodes to dial.
    pub dials: Vec<BootnodeDial>,
    /// Where to listen over QUIC.
    pub quic_addr: Multiaddr,
    /// Where to listen over TCP.
    pub tcp_addr: Multiaddr,
    /// The parameters of gossip.
    pub gossipsub: GossipsubParams,
    /// The limits on connections.
    pub limits: ConnectionLimits,
    /// The subnet that stands for the node in its metrics.
    pub metric_subnet: u64,
    /// The attestation subnets to subscribe to.
    pub subscription_subnets: HashSet<u64>,
}

/// A bootnode to dial, as contracts speak of it.
pub open spec fn dial_view(dial: BootnodeDial) -> (PeerId, Seq<Seq<AddrPart>>) {
    (dial.peer_id, all_parts(dial.addrs@))
}

/// How a bootnode is dialed, if it is: the node does not dial itself, nor a bootnode that has no
/// port to dial.
pub open spec fn dial_of(bootnode: Bootnode, peer: Option<PeerId>, local: PeerId) -> Option<
    (PeerId, Seq<Seq<AddrPart>>),
> {
    match peer {
        Some(id) => if id != local && dial_parts(bootnode, id).len() > 0 {
            Some((id, dial_parts(bootnode, id)))
        } else {
            None
        },
        None => None,
    }
}

/// How the bootnodes of a list are dialed, in order.
pub open spec fn dials_of(bootnodes: Seq<Bootnode>, local: PeerId) -> Seq<
    (PeerId, Seq<Seq<AddrPart>>),
>
    decreases bootnodes.len(),
{
    if bootnodes.len() == 0 {
        Seq::empty()
    } else {
        let before = dials_of(bootnodes.drop_last(), local);
        match dial_of(bootnodes.last(), peer_of_key(bootnodes.last().public_key@), local) {
            Some(dial) => before.push(dial),
            None => before,
        }
    }
}

/// How a bootnode is dialed, if it is; `peer_id` is the id of the peer with the bootnode's key.
pub fn dial_bootnode(bootnode: &Bootnode, peer_id: PeerId, local_peer_id: &PeerId) -> (res: Option<
    BootnodeDial,
>)
    requires
        peer_id.valid(),
    ensures
        match res {
            Some(dial) => Some(dial_view(dial)) == dial_of(
                *bootnode,
                Some(peer_id),
                *local_peer_id,
            ),
            None => dial_of(*bootnode, Some(peer_id), *local_peer_id) is None,
        },
{
    if peer_id.same(local_peer_id) {
        return None;
    }
    let addrs = bootnode_dial_addrs(bootnode, peer_id);
    assert(addrs@.len() == all_parts(addrs@).len());
    if addrs.len() == 0 {
        return None;
    }
    Some(BootnodeDial { peer_id, addrs })
}

/// The bootnodes to dial, in order.
pub fn dial_bootnodes(bootnodes: &Vec<Bootnode>, local_peer_id: &PeerId) -> (res: Vec<
    BootnodeDial,
>)
    ensures
        res@.map_values(|d: BootnodeDial| dial_view(d)) == dials_of(bootnodes@, *local_peer_id),
{
    let mut dials: Vec<BootnodeDial> = Vec::new();
    let mut i: usize = 0;
    assert(dials@.map_values(|d: BootnodeDial| dial_view(d)) =~= dials_of(
        bootnodes@.take(0),
        *local_peer_id,
    ));
    while i < bootnodes.len()
        invariant
            i <= bootnodes@.len(),
            dials@.map_values(|d: BootnodeDial| dial_view(d)) == dials_of(
                bootnodes@.take(i as int),
                *local_peer_id,
            ),
        decreases bootnodes@.len() - i,
    {
        let bootnode = &bootnodes[i];
        let ghost before = dials@;
        proof {
            assert(bootnodes@.take(i + 1).drop_last() =~= bootnodes@.take(i as int));
            assert(bootnodes@.take(i + 1).last() == *bootnode);
        }
        match public_to_peer(&bootnode.public_key) {
            Some(peer_id) => match dial_bootnode(bootnode, peer_id, local_peer_id) {
                Some(dial) => {
                    dials.push(dial);
                    assert(dials@.map_values(|d: BootnodeDial| dial_view(d))
                        =~= before.map_values(|d: BootnodeDial| dial_view(d)).push(
                        dial_view(dial),
                    ));
                },
                None => {},
            },
            None => {},
        }
        i = i + 1;
    }
    assert(bootnodes@.take(i as int) =~= bootnodes@);
    dials
}

/// What a node sets up when it starts; `None` if its key is no secret key.
pub fn build_swarm(config: SwarmConfig, max_transmit_size: usize) -> (res: Option<SwarmPlan>)
    requires
        config.attestation_committee_count > 0 || config.validator_ids@.len() == 0,
    ensures
        match res {
            None => peer_of_secret(config.node_key@) is None,
            Some(plan) => {
                &&& peer_of_secret(config.node_key@) == Some(plan.local_peer_id)
                &&& plan.dials@.map_values(|d: BootnodeDial| dial_view(d)) == dials_of(
                    config.bootnodes@,
                    plan.local_peer_id,
                )
                &&& addr_parts(plan.quic_addr) == quic_parts(config.listen_ip, config.listen_port)
                &&& addr_parts(plan.tcp_addr) == tcp_parts(config.listen_ip, config.listen_port)
                &&& plan.gossipsub == gossip_params(LEAN_SEEN_TTL_SECS, max_transmit_size)
                &&& plan.limits.max_established is None
                &&& plan.limits.max_established_incoming is None
                &&& plan.limits.max_established_outgoing is None
                &&& plan.limits.max_established_per_peer is None
                &&& config.validator_ids@.len() == 0 ==> plan.metric_subnet == 0
                &&& config.validator_ids@.len() > 0 ==> own_subnet(
                    config.validator_ids@,
                    config.attestation_committee_count as int,
                    plan.metric_subnet,
                )
                &&& forall|i: int|
                    0 <= i < config.validator_ids@.len() ==> plan.metric_subnet <= (
                    #[trigger] config.validator_ids@[i]) as int
                        % config.attestation_committee_count as int
                &&& plan.subscription_subnets@ == config.subscription_subnets@
            },
        },
{
    match peer_id_of_secret(&config.node_key) {
        None => None,
        Some(local_peer_id) => {
            let dials = dial_bootnodes(&config.bootnodes, &local_peer_id);
            let metric_subnet: u64 = committee_metric_subnet(
                &config.validator_ids,
                config.attestation_committee_count,
            );
            Some(
                SwarmPlan {
                    local_peer_id,
                    dials,
                    quic_addr: quic_addr(config.listen_ip, config.listen_port),
                    tcp_addr: tcp_addr(config.listen_ip, config.listen_port),
                    gossipsub: gossipsub_config(LEAN_SEEN_TTL_SECS, max_transmit_size),
                    limits: unlimited_connections(),
                    metric_subnet,
                    subscription_subnets: config.subscription_subnets,
                },
            )
        },
    }
}

/// A node never dials itself, and dials no bootnode without an address.
pub proof fn law_a_node_does_not_dial_itself(bootnodes: Seq<Bootnode>, local: PeerId, i: int)
    requires
        0 <= i < dials_of(bootnodes, local).len(),
    ensures
        dials_of(bootnodes, local)[i].0 != local,
        dials_of(bootnodes, local)[i].1.len() > 0,
    decreases bootnodes.len(),
{
    if bootnodes.len() > 0 {
        let before = dials_of(bootnodes.drop_last(), local);
        if i < before.len() {
            law_a_node_does_not_dial_itself(bootnodes.drop_last(), local, i);
        }
    }
}

} // verus!
