//! Connections: who is there, why someone left, and whom to dial again.
use crate::net::address::{addr_parts, first_transport, transport_label, Transport};
use crate::net::server::{DiscoveryView, P2PServer, P2PView, Wire};
use crate::net::subnets::list_views;
use crate::primitives::PeerId;
use crate::text::{contains, has_word, lower_case, to_lower_case};
use libp2p::Multiaddr;
use vstd::prelude::*;

verus! {

/// Seconds to wait before a bootnode is dialed again.
pub const PEER_REDIAL_INTERVAL_SECS: u64 = 12;

/// Who opened a connection.
#[derive(Clone, Copy, Debug, PartialEq, Eq, Structural)]
pub enum Direction {
    /// The peer did.
    Inbound,
    /// We did.
    Outbound,
}

/// Who opened a connection, seen from whether we dialed it.
pub fn connection_direction(is_dialer: bool) -> (res: Direction)
    ensures
        res == (if is_dialer {
            Direction::Outbound
        } else {
            Direction::Inbound
        }),
{
    if is_dialer {
        Direction::Outbound
    } else {
        Direction::Inbound
    }
}

impl Direction {
    /// The direction's name.
    pub fn label(self) -> (res: &'static str)
        ensures
            res@ == (match self {
                Direction::Inbound => "inbound"@,
                Direction::Outbound => "outbound"@,
            }),
    {
        match self {
            Direction::Inbound => "inbound",
            Direction::Outbound => "outbound",
        }
    }
}

/// Why a connection ended.
#[derive(Clone, Copy, Debug, PartialEq, Eq, Structural)]
pub enum CloseReason {
    /// The peer closed it.
    RemoteClose,
    /// Nothing was heard for too long.
    Timeout,
    /// Anything else.
    Error,
}

impl CloseReason {
    /// The reason's name.
    pub fn label(self) -> (res: &'static str)
        ensures
            res@ == (match self {
                CloseReason::RemoteClose => "remote_close"@,
                CloseReason::Timeout => "timeout"@,
                CloseReason::Error => "error"@,
            }),
    {
        match self {
            CloseReason::RemoteClose => "remote_close",
            CloseReason::Timeout => "timeout",
            CloseReason::Error => "error",
        }
    }
}

/// The reason that an error in lower case tells of.
pub open spec fn reason_in(text: Seq<char>) -> CloseReason {
    if has_word(text, "timeout"@) || has_word(text, "timedout"@) || has_word(
        text,
        "keepalive"@,
    ) {
        CloseReason::Timeout
    } else if has_word(text, "reset"@) || has_word(text, "connectionreset"@) {
        CloseReason::RemoteClose
    } else {
        CloseReason::Error
    }
}

/// The reason that an error in lower case tells of.
pub fn reason_in_text(text: &str) -> (res: CloseReason)
    ensures
        res == reason_in(text@),
{
    if contains(text, "timeout") || contains(text, "timedout") || contains(text, "keepalive") {
        CloseReason::Timeout
    } else if contains(text, "reset") || contains(text, "connectionreset") {
        CloseReason::RemoteClose
    } else {
        CloseReason::Error
    }
}

/// Why a connection ended, where `cause` is the error that ended it.
pub open spec fn close_reason_of(cause: Option<Seq<char>>) -> CloseReason {
    match cause {
        None => CloseReason::RemoteClose,
        Some(text) => reason_in(lower_case(text)),
    }
}

/// Why a connection ended, where `cause` is the error that ended it; without an error the peer
/// closed it.
pub fn close_reason(cause: &Option<String>) -> (res: CloseReason)
    ensures
        res == close_reason_of(
            match cause {
                Some(text) => Some(text@),
                None => None,
            },
        ),
{
    match cause {
        None => CloseReason::RemoteClose,
        Some(text) => {
            let lower = to_lower_case(text.as_str());
            reason_in_text(lower.as_str())
        },
    }
}

/// Why a dial failed.
#[derive(Clone, Copy, Debug, PartialEq, Eq, Structural)]
pub enum DialFailure {
    /// Nothing was heard in time.
    Timeout,
    /// Anything else.
    Error,
}

impl DialFailure {
    /// The failure's name.
    pub fn label(self) -> (res: &'static str)
        ensures
            res@ == (match self {
                DialFailure::Timeout => "timeout"@,
                DialFailure::Error => "error"@,
            }),
    {
        match self {
            DialFailure::Timeout => "timeout",
            DialFailure::Error => "error",
        }
    }
}

/// The failure that an error in lower case tells of.
pub open spec fn dial_failure_in(text: Seq<char>) -> DialFailure {
    if has_word(text, "timed out"@) {
        DialFailure::Timeout
    } else {
        DialFailure::Error
    }
}

/// The failure that an error in lower case tells of.
pub fn dial_failure_in_text(text: &str) -> (res: DialFailure)
    ensures
        res == dial_failure_in(text@),
{
    if contains(text, "timed out") {
        DialFailure::Timeout
    } else {
        DialFailure::Error
    }
}

/// Why a dial failed, where `error` is the error that it ended in.
pub fn dial_failure(error: &str) -> (res: DialFailure)
    ensures
        res == dial_failure_in(lower_case(error@)),
{
    let lower = to_lower_case(error);
    dial_failure_in_text(lower.as_str())
}

/// Something that happened to the node's connections.
pub enum SwarmEvent {
    /// A request, a response or the failure of one.
    ReqResp,
    /// A gossip message.
    GossipMessage,
    /// A connection was established.
    ConnectionEstablished {
        /// With whom.
        peer_id: PeerId,
        /// Whether we dialed it.
        is_dialer: bool,
        /// The peer's address.
        remote: Multiaddr,
        /// How many connections there are with the peer now.
        num_established: u32,
    },
    /// A connection was closed.
    ConnectionClosed {
        /// With whom.
        peer_id: PeerId,
        /// Whether we had dialed it.
        is_dialer: bool,
        /// How many connections with the peer are left.
        num_established: u32,
        /// The error that ended it, if one did.
        cause: Option<String>,
    },
    /// A dial failed.
    OutgoingConnectionError {
        /// Whom we dialed, as far as it is known.
        peer: Option<PeerId>,
        /// The error that it ended in.
        error: String,
    },
    /// A connection that a peer dialed failed.
    IncomingConnectionError {
        /// Who dialed, as far as it is known.
        peer: Option<PeerId>,
        /// Whether our own limit on connections refused it.
        refused_at_capacity: bool,
    },
    /// Anything else.
    Other,
}

/// How to greet a peer.
#[derive(Clone, Copy, Debug)]
pub enum Greeting {
    /// With our status on the lean network.
    Lean,
    /// With our status on the beacon network, on the fork with this digest.
    Beacon {
        /// The digest of the fork that the node follows.
        fork_digest: [u8; 4],
    },
}

/// What to do about it.
#[derive(Debug)]
pub enum SwarmAction {
    /// See to the request or response.
    HandleReqResp,
    /// Hand the message to the lean side.
    HandleLeanGossip,
    /// Hand the message to the beacon side.
    HandleBeaconGossip,
    /// Count the new peer, and greet it.
    Greet {
        /// The peer's name.
        name: String,
        /// Who opened the connection.
        direction: Direction,
        /// How the connection is carried.
        transport: Transport,
        /// How many peers are connected now.
        peer_count: usize,
        /// How to greet it.
        greeting: Greeting,
    },
    /// Count the peer that left, and dial it again after a while if so marked.
    CountLeft {
        /// The peer's name.
        name: String,
        /// Who had opened the connection.
        direction: Direction,
        /// Why it ended.
        reason: CloseReason,
        /// How many peers are connected now.
        peer_count: usize,
        /// When to dial the peer again, in seconds.
        redial_in_secs: Option<u64>,
    },
    /// Count the failed dial, and dial again after a while if so marked.
    CountFailedDial {
        /// The peer's name.
        name: String,
        /// Why the dial failed.
        failure: DialFailure,
        /// When to dial the peer again, in seconds.
        redial_in_secs: Option<u64>,
    },
    /// Count the failed connection.
    CountRefused {
        /// The peer's name.
        name: String,
        /// Whether our own limit on connections refused it.
        at_capacity: bool,
    },
    /// Nothing.
    Ignore,
}

/// The dial loop without what it knows of a peer's subnets.
pub open spec fn forgotten(discovery: Option<DiscoveryView>, peer: PeerId) -> Option<
    DiscoveryView,
> {
    match discovery {
        Some(d) => Some(DiscoveryView { attnets: d.attnets.remove(peer), ..d }),
        None => None,
    }
}

/// When to dial a peer again, where it is a bootnode and not connected.
pub open spec fn redial_of(server: P2PView, peer: PeerId) -> Option<u64> {
    if server.bootnodes.contains_key(peer) && !server.connected.contains(peer) {
        Some(PEER_REDIAL_INTERVAL_SECS)
    } else {
        None
    }
}

/// How to greet a peer.
pub open spec fn greeting_of(wire: Wire) -> Greeting {
    match wire {
        Wire::Lean(_) => Greeting::Lean,
        Wire::Beacon(beacon) => Greeting::Beacon { fork_digest: beacon.fork_digest },
    }
}

/// The server once an event was seen to.
pub open spec fn server_after(server: P2PView, event: SwarmEvent) -> P2PView {
    match event {
        SwarmEvent::ConnectionEstablished { peer_id, num_established, .. } => if num_established
            == 1 {
            P2PView { connected: server.connected.insert(peer_id), ..server }
        } else {
            server
        },
        SwarmEvent::ConnectionClosed { peer_id, num_established, .. } => if num_established == 0 {
            P2PView {
                connected: server.connected.remove(peer_id),
                discovery: forgotten(server.discovery, peer_id),
                ..server
            }
        } else {
            server
        },
        SwarmEvent::OutgoingConnectionError { peer: Some(peer), .. } => P2PView {
            discovery: forgotten(server.discovery, peer),
            ..server
        },
        _ => server,
    }
}

/// Whether `action` is what to do about an event, the server being `after`.
pub open spec fn action_for(
    server: P2PView,
    event: SwarmEvent,
    after: P2PView,
    action: SwarmAction,
) -> bool {
    match event {
        SwarmEvent::ReqResp => action == SwarmAction::HandleReqResp,
        SwarmEvent::GossipMessage => action == (if server.wire is Beacon {
            SwarmAction::HandleBeaconGossip
        } else {
            SwarmAction::HandleLeanGossip
        }),
        SwarmEvent::ConnectionEstablished { peer_id, is_dialer, remote, num_established } =>
            if num_established == 1 {
            action matches SwarmAction::Greet { name, direction, transport, peer_count, greeting }
                && {
                &&& name@ == server.name_of(Some(peer_id))
                &&& direction == (if is_dialer {
                    Direction::Outbound
                } else {
                    Direction::Inbound
                })
                &&& transport == first_transport(addr_parts(remote))
                &&& peer_count == after.connected.len()
                &&& greeting == greeting_of(server.wire)
            }
        } else {
            action == SwarmAction::Ignore
        },
        SwarmEvent::ConnectionClosed { peer_id, is_dialer, num_established, cause } =>
            if num_established == 0 {
            action matches SwarmAction::CountLeft {
                name,
                direction,
                reason,
                peer_count,
                redial_in_secs,
            } && {
                &&& name@ == server.name_of(Some(peer_id))
                &&& direction == (if is_dialer {
                    Direction::Outbound
                } else {
                    Direction::Inbound
                })
                &&& reason == close_reason_of(
                    match cause {
                        Some(text) => Some(text@),
                        None => None,
                    },
                )
                &&& peer_count == after.connected.len()
                &&& redial_in_secs == redial_of(after, peer_id)
            }
        } else {
            action == SwarmAction::Ignore
        },
        SwarmEvent::OutgoingConnectionError { peer, error } => action matches
            SwarmAction::CountFailedDial { name, failure, redial_in_secs } && {
            &&& name@ == server.name_of(peer)
            &&& failure == dial_failure_in(lower_case(error@))
            &&& redial_in_secs == (match peer {
                Some(id) => redial_of(after, id),
                None => None,
            })
        },
        SwarmEvent::IncomingConnectionError { peer, refused_at_capacity } => action matches
            SwarmAction::CountRefused { name, at_capacity } && {
            &&& name@ == server.name_of(peer)
            &&& at_capacity == refused_at_capacity
        },
        SwarmEvent::Other => action == SwarmAction::Ignore,
    }
}

impl P2PServer {
    /// Forgets what is known of a peer's subnets.
    fn forget_attnets(&mut self, peer: &PeerId)
        ensures
            final(self)@ == (P2PView {
                discovery: forgotten(old(self)@.discovery, *peer),
                ..old(self)@
            }),
    {
        self.discovery = match self.discovery.take() {
            Some(mut state) => {
                let ghost before = state.peer_attnets@;
                state.peer_attnets.remove(peer);
                assert(list_views(state.peer_attnets@) =~= list_views(before).remove(*peer));
                Some(state)
            },
            None => None,
        };
        assert(self@ =~= (P2PView {
            discovery: forgotten(old(self)@.discovery, *peer),
            ..old(self)@
        }));
    }

    /// When to dial a peer again, where it is a bootnode and not connected.
    fn redial_in_secs(&self, peer: &PeerId) -> (res: Option<u64>)
        ensures
            res == redial_of(self@, *peer),
    {
        if self.bootnode_addrs.contains_key(peer) && !self.connected_peers.contains(peer) {
            Some(PEER_REDIAL_INTERVAL_SECS)
        } else {
            None
        }
    }

    /// How to greet a peer.
    fn greeting(&self) -> (res: Greeting)
        ensures
            res == greeting_of(self@.wire),
    {
        match &self.wire {
            Wire::Lean(_) => Greeting::Lean,
            Wire::Beacon(beacon) => Greeting::Beacon { fork_digest: beacon.fork_digest },
        }
    }

    /// Sees to an event of the node's connections.
    pub fn handle_swarm_event(&mut self, event: SwarmEvent) -> (res: SwarmAction)
        ensures
            final(self)@ == server_after(old(self)@, event),
            action_for(old(self)@, event, final(self)@, res),
            old(self)@.wf() ==> final(self)@.wf(),
    {
        match event {
            SwarmEvent::ReqResp => SwarmAction::HandleReqResp,
            SwarmEvent::GossipMessage => {
                if self.is_beacon() {
                    SwarmAction::HandleBeaconGossip
                } else {
                    SwarmAction::HandleLeanGossip
                }
            },
            SwarmEvent::ConnectionEstablished { peer_id, is_dialer, remote, num_established } => {
                if num_established != 1 {
                    return SwarmAction::Ignore;
                }
                let direction = connection_direction(is_dialer);
                let transport = transport_label(&remote);
                self.connected_peers.insert(peer_id);
                let peer_count: usize = self.connected_peers.len();
                let name = self.resolve_node_name(Some(&peer_id));
                let greeting = self.greeting();
                SwarmAction::Greet { name, direction, transport, peer_count, greeting }
            },
            SwarmEvent::ConnectionClosed { peer_id, is_dialer, num_established, cause } => {
                if num_established != 0 {
                    return SwarmAction::Ignore;
                }
                let direction = connection_direction(is_dialer);
                let reason = close_reason(&cause);
                self.connected_peers.remove(&peer_id);
                self.forget_attnets(&peer_id);
                let peer_count: usize = self.connected_peers.len();
                let name = self.resolve_node_name(Some(&peer_id));
                let redial_in_secs = self.redial_in_secs(&peer_id);
                SwarmAction::CountLeft { name, direction, reason, peer_count, redial_in_secs }
            },
            SwarmEvent::OutgoingConnectionError { peer, error } => {
                let failure = dial_failure(error.as_str());
                match peer {
                    Some(id) => {
                        let name = self.resolve_node_name(Some(&id));
                        self.forget_attnets(&id);
                        let redial_in_secs = self.redial_in_secs(&id);
                        SwarmAction::CountFailedDial { name, failure, redial_in_secs }
                    },
                    None => SwarmAction::CountFailedDial {
                        name: self.resolve_node_name(None),
                        failure,
                        redial_in_secs: None,
                    },
                }
            },
            SwarmEvent::IncomingConnectionError { peer, refused_at_capacity } => {
                let name = match peer {
                    Some(id) => self.resolve_node_name(Some(&id)),
                    None => self.resolve_node_name(None),
                };
                SwarmAction::CountRefused { name, at_capacity: refused_at_capacity }
            },
            SwarmEvent::Other => SwarmAction::Ignore,
        }
    }

    /// Whether a peer is to be dialed when the wait for it is over: not if it has come back
    /// meanwhile, and only if it is a bootnode.
    pub fn wants_redial(&self, peer: &PeerId) -> (res: bool)
        ensures
            res == (redial_of(self@, *peer) is Some),
    {
        !self.connected_peers.contains(peer) && self.bootnode_addrs.contains_key(peer)
    }
}

/// A bootnode that leaves is dialed again; a peer that is none is not.
pub proof fn law_bootnodes_are_dialed_again(
    server: P2PView,
    peer: PeerId,
    is_dialer: bool,
    cause: Option<String>,
    action: SwarmAction,
)
    requires
        ({
            let event = SwarmEvent::ConnectionClosed {
                peer_id: peer,
                is_dialer,
                num_established: 0,
                cause,
            };
            action_for(server, event, server_after(server, event), action)
        }),
    ensures
        action matches SwarmAction::CountLeft { redial_in_secs, .. } && redial_in_secs == (
        if server.bootnodes.contains_key(peer) {
            Some(PEER_REDIAL_INTERVAL_SECS)
        } else {
            None
        }),
{
}

/// What is known of a peer's subnets does not outlive its connection, nor a dial that failed.
pub proof fn law_attnets_do_not_outlive_the_peer(
    server: P2PView,
    peer: PeerId,
    is_dialer: bool,
    cause: Option<String>,
    error: String,
)
    ensures
        server_after(
            server,
            (SwarmEvent::ConnectionClosed { peer_id: peer, is_dialer, num_established: 0, cause }),
        ).discovery matches Some(d) ==> !d.attnets.contains_key(peer),
        server_after(
            server,
            (SwarmEvent::OutgoingConnectionError { peer: Some(peer), error }),
        ).discovery matches Some(d) ==> !d.attnets.contains_key(peer),
{
}

/// A peer counts as connected from its first connection to its last.
pub proof fn law_peers_are_connected_from_first_to_last_connection(
    server: P2PView,
    peer: PeerId,
    is_dialer: bool,
    remote: Multiaddr,
    num: u32,
    cause: Option<String>,
)
    ensures
        server_after(
            server,
            (SwarmEvent::ConnectionEstablished {
                peer_id: peer,
                is_dialer,
                remote,
                num_established: 1,
            }),
        ).connected.contains(peer),
        server.connected.contains(peer) && num > 0 ==> server_after(
            server,
            (SwarmEvent::ConnectionClosed {
                peer_id: peer,
                is_dialer,
                num_established: num,
                cause,
            }),
        ).connected.contains(peer),
        !server_after(
            server,
            (SwarmEvent::ConnectionClosed { peer_id: peer, is_dialer, num_established: 0, cause }),
        ).connected.contains(peer),
{
}

} // verus!
