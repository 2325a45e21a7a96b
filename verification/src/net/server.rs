//! The state of the network side.
use crate::keyed::{KeyMap, KeySet};
use crate::net::identity::text_views;
use crate::net::range_sync::{RangeSyncState, RangeSyncView};
use crate::net::subnets::list_views;
use crate::primitives::{PeerId, RequestId, H256};
use libp2p::Multiaddr;
use std::collections::{HashMap, VecDeque};
use vstd::prelude::*;

verus! {

/// A block that is being fetched by its root.
pub struct PendingRequest {
    /// How often it was asked for.
    pub attempts: u32,
    /// The peers that failed to serve it.
    pub failed_peers: KeySet<PeerId>,
}

/// A block that is being fetched, as contracts speak of it.
#[verifier::ext_equal]
pub struct PendingRequestView {
    /// How often it was asked for.
    pub attempts: u32,
    /// The peers that failed to serve it.
    pub failed: Set<PeerId>,
}

impl View for PendingRequest {
    type V = PendingRequestView;

    open spec fn view(&self) -> PendingRequestView {
        PendingRequestView { attempts: self.attempts, failed: self.failed_peers@ }
    }
}

/// What an outbound request asked for.
#[derive(Clone, Copy, Debug)]
pub enum PendingRequestKind {
    /// A lean block by its root.
    Root(H256),
    /// Lean blocks by their slots, both ends included.
    Range {
        /// The first slot.
        start_slot: u64,
        /// The last slot.
        end_slot: u64,
    },
    /// Beacon blocks by their slots, both ends included.
    BeaconRange {
        /// The first slot.
        start_slot: u64,
        /// The last slot.
        end_slot: u64,
    },
    /// A beacon block by its root.
    BeaconRoot(H256),
}

/// The gossip topics of the lean network.
pub struct LeanWire {
    /// The topic of each subscribed attestation subnet.
    pub attestation_topics: HashMap<u64, String>,
    /// Number of attestation committees.
    pub attestation_committee_count: u64,
    /// The topic of blocks.
    pub block_topic: String,
    /// The topic of aggregates.
    pub aggregation_topic: String,
}

/// What the node tells the beacon network of itself.
pub struct BeaconWire {
    /// The digest of the fork that the node follows.
    pub fork_digest: [u8; 4],
}

/// Which network's wire this node speaks: one of the two, never both.
pub enum Wire {
    /// The lean network's.
    Lean(LeanWire),
    /// The beacon network's.
    Beacon(BeaconWire),
}

impl Wire {
    /// The lean wire, if this is one.
    pub fn lean(&self) -> (res: Option<&LeanWire>)
        ensures
            match res {
                Some(lean) => *self == Wire::Lean(*lean),
                None => self is Beacon,
            },
    {
        match self {
            Wire::Lean(lean) => Some(lean),
            Wire::Beacon(_) => None,
        }
    }

    /// The beacon wire, if this is one.
    pub fn beacon(&self) -> (res: Option<&BeaconWire>)
        ensures
            match res {
                Some(beacon) => *self == Wire::Beacon(*beacon),
                None => self is Lean,
            },
    {
        match self {
            Wire::Beacon(beacon) => Some(beacon),
            Wire::Lean(_) => None,
        }
    }
}

/// A peer that discovery found, and that is worth dialing.
pub struct DiscoveredPeer {
    /// Who it is.
    pub peer_id: PeerId,
    /// The attestation subnets that it advertises.
    pub subnets: Vec<u64>,
    /// Where to dial it.
    pub addrs: Vec<Multiaddr>,
}

/// What the dial loop keeps.
pub struct DiscoveryState {
    /// Admitted candidates, best first.
    pub candidates: VecDeque<DiscoveredPeer>,
    /// The subnets advertised by peers that were dialed from discovery.
    pub peer_attnets: KeyMap<PeerId, Vec<u64>>,
}

/// What the dial loop keeps, as contracts speak of it.
#[verifier::ext_equal]
pub struct DiscoveryView {
    /// Admitted candidates, best first.
    pub candidates: Seq<DiscoveredPeer>,
    /// The subnets advertised by peers that were dialed from discovery.
    pub attnets: Map<PeerId, Seq<u64>>,
}

impl View for DiscoveryState {
    type V = DiscoveryView;

    open spec fn view(&self) -> DiscoveryView {
        DiscoveryView { candidates: self.candidates@, attnets: list_views(self.peer_attnets@) }
    }
}

/// The network side.
pub struct P2PServer {
    /// Whether the chain side is connected.
    pub blockchain_linked: bool,
    /// Which network's wire the node speaks.
    pub wire: Wire,
    /// The peers that are connected.
    pub connected_peers: KeySet<PeerId>,
    /// The lean blocks that are being fetched by their roots.
    pub pending_root_requests: KeyMap<H256, PendingRequest>,
    /// The outbound requests that wait for a response.
    pub outbound_requests: KeyMap<RequestId, PendingRequestKind>,
    /// The open catch-up session.
    pub range_sync_state: Option<RangeSyncState>,
    /// The beacon blocks that are being fetched by their roots.
    pub beacon_pending_root_requests: KeyMap<H256, PendingRequest>,
    /// Where to dial the bootnodes.
    pub bootnode_addrs: KeyMap<PeerId, Vec<Multiaddr>>,
    /// The names of known nodes.
    pub node_names: KeyMap<PeerId, String>,
    /// What the dial loop keeps; `None` if discovery is off.
    pub discovery: Option<DiscoveryState>,
    /// The node's own peer id.
    pub local_peer_id: PeerId,
}

/// The network side, as contracts speak of it.
#[verifier::ext_equal]
pub struct P2PView {
    /// Whether the chain side is connected.
    pub linked: bool,
    /// Which network's wire the node speaks.
    pub wire: Wire,
    /// The peers that are connected.
    pub connected: Set<PeerId>,
    /// The lean blocks that are being fetched by their roots.
    pub fetches: Map<H256, PendingRequestView>,
    /// The outbound requests that wait for a response.
    pub outbound: Map<RequestId, PendingRequestKind>,
    /// The open catch-up session.
    pub session: Option<RangeSyncView>,
    /// The beacon blocks that are being fetched by their roots.
    pub beacon_fetches: Map<H256, PendingRequestView>,
    /// Where to dial the bootnodes.
    pub bootnodes: Map<PeerId, Vec<Multiaddr>>,
    /// The names of known nodes.
    pub names: Map<PeerId, Seq<char>>,
    /// What the dial loop keeps.
    pub discovery: Option<DiscoveryView>,
    /// The node's own peer id.
    pub local: PeerId,
}

/// What the values of a map of fetches stand for.
pub open spec fn fetch_views(fetches: Map<H256, PendingRequest>) -> Map<H256, PendingRequestView> {
    fetches.map_values(|p: PendingRequest| p@)
}

/// What an optional session stands for.
pub open spec fn session_view(session: Option<RangeSyncState>) -> Option<RangeSyncView> {
    match session {
        Some(s) => Some(s@),
        None => None,
    }
}

/// What an optional dial loop stands for.
pub open spec fn discovery_view(discovery: Option<DiscoveryState>) -> Option<DiscoveryView> {
    match discovery {
        Some(d) => Some(d@),
        None => None,
    }
}

impl View for P2PServer {
    type V = P2PView;

    open spec fn view(&self) -> P2PView {
        P2PView {
            linked: self.blockchain_linked,
            wire: self.wire,
            connected: self.connected_peers@,
            fetches: fetch_views(self.pending_root_requests@),
            outbound: self.outbound_requests@,
            session: session_view(self.range_sync_state),
            beacon_fetches: fetch_views(self.beacon_pending_root_requests@),
            bootnodes: self.bootnode_addrs@,
            names: text_views(self.node_names@),
            discovery: discovery_view(self.discovery),
            local: self.local_peer_id,
        }
    }
}

impl P2PView {
    /// The name of a peer, as far as it is known.
    pub open spec fn name_of(self, peer: Option<PeerId>) -> Seq<char> {
        match peer {
            Some(id) => if self.names.contains_key(id) {
                self.names[id]
            } else {
                "unknown"@
            },
            None => "unknown"@,
        }
    }

    /// Whether every fetch has been tried at least once.
    pub open spec fn wf(self) -> bool {
        forall|root: H256| #[trigger]
            self.fetches.contains_key(root) ==> self.fetches[root].attempts >= 1
    }
}

/// The timers that are armed at startup.
#[derive(Clone, Copy, Debug, PartialEq, Eq, Structural)]
pub struct StartupTimers {
    /// That of the dial loop.
    pub discover_peers: bool,
    /// That of the look at the beacon network's catch-up session.
    pub beacon_resync: bool,
}

/// The timers that a server arms at startup.
pub open spec fn timers_of(server: P2PView) -> StartupTimers {
    StartupTimers {
        discover_peers: server.discovery is Some,
        beacon_resync: server.wire is Beacon,
    }
}

/// A bootnode to dial, and where.
pub struct BootnodeDial {
    /// Who it is.
    pub peer_id: PeerId,
    /// Where to dial it.
    pub addrs: Vec<Multiaddr>,
}

/// Where to dial each bootnode of a list; of two entries for one peer the later stands.
pub open spec fn dial_table(dials: Seq<BootnodeDial>) -> Map<PeerId, Vec<Multiaddr>>
    decreases dials.len(),
{
    if dials.len() == 0 {
        Map::empty()
    } else {
        dial_table(dials.drop_last()).insert(dials.last().peer_id, dials.last().addrs)
    }
}

impl P2PServer {
    /// The network side at startup.
    pub fn new(
        wire: Wire,
        bootnodes: Vec<BootnodeDial>,
        node_names: KeyMap<PeerId, String>,
        discovery_enabled: bool,
        local_peer_id: PeerId,
    ) -> (res: P2PServer)
        ensures
            res@.wf(),
            res@ == (P2PView {
                linked: false,
                wire,
                connected: Set::empty(),
                fetches: Map::empty(),
                outbound: Map::empty(),
                session: None,
                beacon_fetches: Map::empty(),
                bootnodes: dial_table(bootnodes@),
                names: text_views(node_names@),
                discovery: if discovery_enabled {
                    Some(DiscoveryView { candidates: Seq::empty(), attnets: Map::empty() })
                } else {
                    None
                },
                local: local_peer_id,
            }),
    {
        let discovery: Option<DiscoveryState> = if discovery_enabled {
            let state = DiscoveryState { candidates: VecDeque::new(), peer_attnets: KeyMap::new() };
            assert(state@.candidates =~= Seq::empty());
            assert(state@.attnets =~= Map::empty());
            Some(state)
        } else {
            None
        };
        let bootnode_addrs = dial_map(bootnodes);
        let res = P2PServer {
            blockchain_linked: false,
            wire,
            connected_peers: KeySet::new(),
            pending_root_requests: KeyMap::new(),
            outbound_requests: KeyMap::new(),
            range_sync_state: None,
            beacon_pending_root_requests: KeyMap::new(),
            bootnode_addrs,
            node_names,
            discovery,
            local_peer_id,
        };
        assert(res@.fetches =~= Map::empty());
        assert(res@.beacon_fetches =~= Map::empty());
        res
    }

    /// Connects the chain side.
    pub fn link_blockchain(&mut self)
        ensures
            final(self)@ == (P2PView { linked: true, ..old(self)@ }),
    {
        self.blockchain_linked = true;
    }

    /// The name of a peer, or `unknown`.
    pub fn resolve_node_name(&self, peer_id: Option<&PeerId>) -> (res: String)
        ensures
            res@ == self@.name_of(
                match peer_id {
                    Some(id) => Some(*id),
                    None => None,
                },
            ),
    {
        match peer_id {
            Some(id) => match self.node_names.get(id) {
                Some(name) => name.clone(),
                None => "unknown".to_string(),
            },
            None => "unknown".to_string(),
        }
    }

    /// Which timers to arm at startup: the dial loop's where discovery is on, and on the beacon
    /// network the one that sees whether a catch-up session is to be opened again.
    pub fn startup_timers(&self) -> (res: StartupTimers)
        ensures
            res == timers_of(self@),
    {
        StartupTimers {
            discover_peers: self.discovery.is_some(),
            beacon_resync: self.is_beacon(),
        }
    }

    /// Whether the node speaks the beacon network's wire.
    pub fn is_beacon(&self) -> (res: bool)
        ensures
            res == (self@.wire is Beacon),
    {
        self.wire.beacon().is_some()
    }
}

fn dial_map(bootnodes: Vec<BootnodeDial>) -> (res: KeyMap<PeerId, Vec<Multiaddr>>)
    ensures
        res@ == dial_table(bootnodes@),
{
    let mut map: KeyMap<PeerId, Vec<Multiaddr>> = KeyMap::new();
    let ghost all = bootnodes@;
    let mut rest: Vec<BootnodeDial> = bootnodes;
    assert(all.skip(0) =~= all);
    let ghost mut done: int = 0;
    while rest.len() > 0
        invariant
            0 <= done <= all.len(),
            rest@ == all.skip(done),
            map@ == dial_table(all.take(done)),
        decreases rest@.len(),
    {
        let dial = rest.remove(0);
        map.insert(dial.peer_id, dial.addrs);
        proof {
            assert(all.take(done + 1).drop_last() =~= all.take(done));
            assert(all.take(done + 1).last() == dial);
            done = done + 1;
            assert(rest@ =~= all.skip(done));
        }
    }
    assert(all.take(done) =~= all);
    map
}

} // verus!
