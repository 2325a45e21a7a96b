//! Limits on connections, and the parameters of gossip.
use crate::clock::MILLISECONDS_PER_SLOT;
use vstd::prelude::*;

verus! {

/// Most connections that a beacon node keeps established at once.
pub const MAX_BEACON_CONNECTIONS: u32 = 200;

/// How many of them stay reserved for connections that the node opens itself.
pub const MAX_BEACON_OUTBOUND_CONNECTIONS: u32 = 20;

/// Most connections that one peer may hold: one over each transport.
pub const MAX_CONNECTIONS_PER_PEER: u32 = 2;

/// Limits on established connections; `None` sets no limit.
#[derive(Clone, Copy, Debug, PartialEq, Eq, Structural)]
pub struct ConnectionLimits {
    /// In all.
    pub max_established: Option<u32>,
    /// Opened by others.
    pub max_established_incoming: Option<u32>,
    /// Opened by the node itself.
    pub max_established_outgoing: Option<u32>,
    /// With one peer.
    pub max_established_per_peer: Option<u32>,
}

/// The limits of the beacon network, where far more peers dial in than a node can serve.
pub fn beacon_connection_limits() -> (res: ConnectionLimits)
    ensures
        res.max_established == Some(MAX_BEACON_CONNECTIONS),
        res.max_established_incoming == Some(180u32),
        res.max_established_outgoing == Some(MAX_BEACON_OUTBOUND_CONNECTIONS),
        res.max_established_per_peer == Some(MAX_CONNECTIONS_PER_PEER),
        res.max_established_incoming.unwrap() + res.max_established_outgoing.unwrap()
            == res.max_established.unwrap(),
{
    ConnectionLimits {
        max_established: Some(MAX_BEACON_CONNECTIONS),
        max_established_incoming: Some(
            MAX_BEACON_CONNECTIONS - MAX_BEACON_OUTBOUND_CONNECTIONS,
        ),
        max_established_outgoing: Some(MAX_BEACON_OUTBOUND_CONNECTIONS),
        max_established_per_peer: Some(MAX_CONNECTIONS_PER_PEER),
    }
}

/// No limits, as on the lean network, whose size bounds its peers.
pub fn unlimited_connections() -> (res: ConnectionLimits)
    ensures
        res.max_established is None,
        res.max_established_incoming is None,
        res.max_established_outgoing is None,
        res.max_established_per_peer is None,
{
    ConnectionLimits {
        max_established: None,
        max_established_incoming: None,
        max_established_outgoing: None,
        max_established_per_peer: None,
    }
}

/// The parameters of gossip.
#[derive(Clone, Copy, Debug, PartialEq, Eq, Structural)]
pub struct GossipsubParams {
    /// Peers that a topic's mesh aims at.
    pub mesh_n: usize,
    /// Fewest peers before more are sought.
    pub mesh_n_low: usize,
    /// Most peers before some are dropped.
    pub mesh_n_high: usize,
    /// Peers outside the mesh that hear of messages.
    pub gossip_lazy: usize,
    /// Time between two heartbeats, in milliseconds.
    pub heartbeat_interval_ms: u64,
    /// How long a topic that is only published to stays known, in seconds.
    pub fanout_ttl_secs: u64,
    /// Heartbeats that a message is kept for.
    pub history_length: usize,
    /// Heartbeats that a message is spoken of for.
    pub history_gossip: usize,
    /// How long a message is known as seen, in seconds.
    pub seen_ttl_secs: u64,
    /// Most bytes that one message has on the wire.
    pub max_transmit_size: usize,
    /// Most messages in one exchange.
    pub max_messages_per_rpc: usize,
    /// Whether messages that name this node as their origin are let in.
    pub allow_self_origin: bool,
    /// Bytes from which on a received message is announced as unwanted to others.
    pub idontwant_message_size_threshold: usize,
}

/// How long the lean network knows a message as seen: twice the three slots of four seconds that
/// justification looks back on, in seconds.
pub const LEAN_SEEN_TTL_SECS: u64 = 24;

/// The parameters that both networks share, with how long a message is known as seen and how
/// large one may be.
pub open spec fn gossip_params(seen_ttl_secs: u64, max_transmit_size: usize) -> GossipsubParams {
    GossipsubParams {
        mesh_n: 8,
        mesh_n_low: 6,
        mesh_n_high: 12,
        gossip_lazy: 6,
        heartbeat_interval_ms: 700,
        fanout_ttl_secs: 60,
        history_length: 6,
        history_gossip: 3,
        seen_ttl_secs,
        max_transmit_size,
        max_messages_per_rpc: 500,
        allow_self_origin: true,
        idontwant_message_size_threshold: 1000,
    }
}

/// The parameters that both networks share; only how long a message is known as seen, and how
/// large one may be, are given.
pub fn gossipsub_config(seen_ttl_secs: u64, max_transmit_size: usize) -> (res: GossipsubParams)
    ensures
        res == gossip_params(seen_ttl_secs, max_transmit_size),
        res.mesh_n_low <= res.mesh_n <= res.mesh_n_high,
        res.history_gossip <= res.history_length,
{
    GossipsubParams {
        mesh_n: 8,
        mesh_n_low: 6,
        mesh_n_high: 12,
        gossip_lazy: 6,
        heartbeat_interval_ms: 700,
        fanout_ttl_secs: 60,
        history_length: 6,
        history_gossip: 3,
        seen_ttl_secs,
        max_transmit_size,
        max_messages_per_rpc: 500,
        allow_self_origin: true,
        idontwant_message_size_threshold: 1000,
    }
}

/// The lean network knows a message as seen for twice the three slots that justification looks
/// back on, whatever the size of its messages.
pub proof fn law_lean_messages_are_known_for_six_slots(size: usize)
    ensures
        gossip_params(LEAN_SEEN_TTL_SECS, size).seen_ttl_secs * 1000 == 6 * MILLISECONDS_PER_SLOT,
        gossip_params(LEAN_SEEN_TTL_SECS, size).max_transmit_size == size,
{
}

/// Both networks gossip alike, but for how long a message is known as seen and how large one may
/// be: those are as given.
pub proof fn law_gossip_differs_in_memory_and_size_alone(
    ttl: u64,
    size: usize,
    other_ttl: u64,
    other_size: usize,
)
    ensures
        gossip_params(ttl, size).seen_ttl_secs == ttl,
        gossip_params(ttl, size).max_transmit_size == size,
        gossip_params(ttl, size) == (GossipsubParams {
            seen_ttl_secs: ttl,
            max_transmit_size: size,
            ..gossip_params(other_ttl, other_size)
        }),
        gossip_params(ttl, size).mesh_n == 8,
        gossip_params(ttl, size).mesh_n_low == 6,
        gossip_params(ttl, size).mesh_n_high == 12,
        gossip_params(ttl, size).gossip_lazy == 6,
        gossip_params(ttl, size).heartbeat_interval_ms == 700,
        gossip_params(ttl, size).fanout_ttl_secs == 60,
        gossip_params(ttl, size).history_length == 6,
        gossip_params(ttl, size).history_gossip == 3,
        gossip_params(ttl, size).max_messages_per_rpc == 500,
        gossip_params(ttl, size).allow_self_origin,
        gossip_params(ttl, size).idontwant_message_size_threshold == 1000,
{
}

} // verus!
