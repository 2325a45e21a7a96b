use ethlambda::keyed::{KeyMap, KeySet};
use ethlambda::net::address::{quic_addr, tcp_addr, IpAddr, Transport};
use ethlambda::net::discovery::{select_candidates, Contact, DiscoveryStep, Refusal};
use ethlambda::net::fetch::{backoff, FetchFailure, MAX_FETCH_RETRIES};
use ethlambda::net::message_id::{compute_message_id, id_from_hash, preimage};
use ethlambda::net::req_resp::{
    build_status, canonical_blocks_by_range, handle_blocks_by_range_request,
    handle_blocks_by_root_request, Checkpoint, FetchedBlock, InboundRequest, InboundResponse,
    RangeAnswer, RangeRequest, ReqRespAction, ReqRespEvent, RootResponse,
};
use ethlambda::net::server::{
    BeaconWire, BootnodeDial, DiscoveredPeer, LeanWire, P2PServer, PendingRequest,
    PendingRequestKind, Wire,
};
use ethlambda::net::settings::{
    beacon_connection_limits, gossipsub_config, unlimited_connections,
};
use ethlambda::net::subnets::{
    attestation_subscription_subnets, committee_metric_subnet, covered_subnets,
};
use ethlambda::net::swarm::{
    close_reason, connection_direction, dial_failure, reason_in_text, CloseReason, DialFailure,
    Direction, Greeting, SwarmAction, SwarmEvent,
};
use ethlambda::primitives::{PeerId, RequestId, H256};
use std::collections::{HashMap, HashSet};

fn peer(n: u8) -> PeerId {
    PeerId::from_parts(0x12, &[n; 32]).expect("a sha-256 id")
}

fn root(n: u8) -> H256 {
    H256([n; 32])
}

fn lean_wire() -> Wire {
    Wire::Lean(LeanWire {
        attestation_topics: HashMap::new(),
        attestation_committee_count: 4,
        block_topic: "/leanconsensus/devnet0/block/ssz_snappy".to_string(),
        aggregation_topic: "/leanconsensus/devnet0/aggregation/ssz_snappy".to_string(),
    })
}

fn beacon_wire() -> Wire {
    Wire::Beacon(BeaconWire { fork_digest: [1, 2, 3, 4] })
}

fn server_with(wire: Wire, discovery: bool) -> P2PServer {
    let mut names = KeyMap::new();
    names.insert(peer(1), "one".to_string());
    let dials = vec![BootnodeDial {
        peer_id: peer(9),
        addrs: vec![tcp_addr(IpAddr::V4([127, 0, 0, 1]), 9000)],
    }];
    let mut server = P2PServer::new(wire, dials, names, discovery, peer(100));
    server.link_blockchain();
    server
}

fn server() -> P2PServer {
    server_with(lean_wire(), true)
}

fn connect(server: &mut P2PServer, n: u8) {
    server.handle_swarm_event(SwarmEvent::ConnectionEstablished {
        peer_id: peer(n),
        is_dialer: true,
        remote: quic_addr(IpAddr::V4([127, 0, 0, 1]), 9000),
        num_established: 1,
    });
}

fn respond(server: &mut P2PServer, id: u64, response: InboundResponse) -> ReqRespAction {
    server.handle_req_resp_message(
        ReqRespEvent::Response { peer: peer(1), request_id: RequestId(id), response },
        10,
    )
}

fn fail(server: &mut P2PServer, id: u64, unsupported_protocols: bool) -> ReqRespAction {
    server.handle_req_resp_message(
        ReqRespEvent::OutboundFailure {
            peer: peer(1),
            request_id: RequestId(id),
            unsupported_protocols,
        },
        10,
    )
}

fn block(slot: u64, n: u8) -> FetchedBlock {
    FetchedBlock { slot, root: root(n) }
}

/// Takes in a status, and sends the request that follows it.
fn open_session(server: &mut P2PServer, head_slot: u64, id: u64) -> RangeRequest {
    match respond(server, 1, InboundResponse::Status { head_slot }) {
        ReqRespAction::RequestRange(Some(request)) => {
            assert!(server.on_range_sent(&request, Some(RequestId(id))));
            request
        }
        other => panic!("unexpected {other:?}"),
    }
}

// --- Wire and settings ---

#[test]
fn a_lean_wire_reports_its_topics_and_no_beacon_wire() {
    let wire = lean_wire();
    assert!(wire.beacon().is_none());
    let lean = wire.lean().expect("a lean wire");
    assert_eq!(lean.attestation_committee_count, 4);
    assert!(lean.block_topic.to_string().starts_with("/leanconsensus/"));
}

#[test]
fn a_beacon_wire_is_no_lean_wire() {
    let wire = beacon_wire();
    assert!(wire.lean().is_none());
    assert_eq!(wire.beacon().expect("a beacon wire").fork_digest, [1, 2, 3, 4]);
}

#[test]
fn the_outbound_reservation_is_part_of_the_ceiling() {
    let limits = beacon_connection_limits();
    assert_eq!(limits.max_established, Some(200));
    assert_eq!(limits.max_established_incoming, Some(180));
    assert_eq!(limits.max_established_outgoing, Some(20));
    assert_eq!(limits.max_established_per_peer, Some(2));
    let none = unlimited_connections();
    assert_eq!(none.max_established, None);
    assert_eq!(none.max_established_per_peer, None);
}

#[test]
fn gossip_parameters() {
    let params = gossipsub_config(24, 10_000_000);
    assert_eq!((params.mesh_n_low, params.mesh_n, params.mesh_n_high), (6, 8, 12));
    assert_eq!(params.gossip_lazy, 6);
    assert_eq!(params.heartbeat_interval_ms, 700);
    assert_eq!((params.history_length, params.history_gossip), (6, 3));
    assert_eq!(params.seen_ttl_secs, 24);
    assert_eq!(params.max_transmit_size, 10_000_000);
    assert_eq!(params.max_messages_per_rpc, 500);
    assert_eq!(params.idontwant_message_size_threshold, 1000);
    assert_eq!(params.fanout_ttl_secs, 60);
    assert!(params.allow_self_origin);
}

#[test]
fn timers_are_armed_for_discovery_and_the_beacon_network() {
    let timers = server_with(lean_wire(), true).startup_timers();
    assert!(timers.discover_peers && !timers.beacon_resync);
    let timers = server_with(beacon_wire(), false).startup_timers();
    assert!(!timers.discover_peers && timers.beacon_resync);
}

#[test]
fn names_of_peers() {
    let server = server();
    assert_eq!(server.resolve_node_name(Some(&peer(1))), "one");
    assert_eq!(server.resolve_node_name(Some(&peer(2))), "unknown");
    assert_eq!(server.resolve_node_name(None), "unknown");
}

#[test]
fn bootnodes_are_known_by_their_last_addresses() {
    let ip = IpAddr::V4([127, 0, 0, 1]);
    let dial = |n: u8, port: u16| BootnodeDial { peer_id: peer(n), addrs: vec![tcp_addr(ip, port)] };
    let server = P2PServer::new(
        lean_wire(),
        vec![dial(1, 10), dial(2, 20), dial(1, 30)],
        KeyMap::new(),
        false,
        peer(100),
    );
    assert_eq!(server.bootnode_addrs.len(), 2);
    let addrs = server.bootnode_addrs.get(&peer(1)).expect("known");
    assert_eq!(addrs[0].to_string(), "/ip4/127.0.0.1/tcp/30");
}

// --- Message ids ---

#[test]
fn message_ids_are_cut_hashes_of_domain_topic_and_data() {
    let topic = "/leanconsensus/block";
    let id = compute_message_id(topic, &b"raw".to_vec(), Some(&b"hello".to_vec()));
    assert_eq!(hex::encode(id), "11d5de9c0e141f1ae5c9d037d931fd9f5cb1a305");
    let id = compute_message_id(topic, &b"raw".to_vec(), None);
    assert_eq!(hex::encode(id), "de052b7bef89a0fe0012686592c2d08ea1a02096");
}

#[test]
fn preimages_name_domain_and_length() {
    let all = preimage("ab", &vec![9], None);
    assert_eq!(all, vec![0, 0, 0, 0, 2, 0, 0, 0, 0, 0, 0, 0, b'a', b'b', 9]);
    let all = preimage("ab", &vec![9], Some(&vec![7, 8]));
    assert_eq!(all, vec![1, 0, 0, 0, 2, 0, 0, 0, 0, 0, 0, 0, b'a', b'b', 7, 8]);
    let mut hash = [0u8; 32];
    hash[19] = 5;
    hash[20] = 6;
    let id = id_from_hash(&hash);
    assert_eq!(id.len(), 20);
    assert_eq!(id[19], 5);
}

// --- Subnets ---

#[test]
fn validators_and_aggregators_subscribe() {
    let subnets = |ids: &[u64], agg: bool, extra: Option<&[u64]>| {
        attestation_subscription_subnets(ids, 4, agg, extra)
    };
    assert_eq!(subnets(&[1, 5, 6], false, None), HashSet::from([1, 2]));
    assert_eq!(subnets(&[1, 5, 6], false, Some(&[3])), HashSet::from([1, 2]));
    assert_eq!(subnets(&[1], true, Some(&[3, 9])), HashSet::from([1, 3, 9]));
    assert_eq!(subnets(&[1], true, None), HashSet::from([1]));
    assert_eq!(subnets(&[], true, None), HashSet::from([0]));
    assert_eq!(subnets(&[], true, Some(&[])), HashSet::from([0]));
    assert_eq!(subnets(&[], false, None), HashSet::new());
}

#[test]
fn the_metric_shows_the_least_own_subnet() {
    assert_eq!(committee_metric_subnet(&vec![7, 6, 3], 4), 2);
    assert_eq!(committee_metric_subnet(&vec![], 0), 0);
}

#[test]
fn covered_subnets_unions_only_connected_peers() {
    let connected = peer(1);
    let gone = peer(2);
    let mut server_subnets = KeyMap::new();
    server_subnets.insert(connected, vec![1u64, 2]);
    server_subnets.insert(gone, vec![7u64]);

    let mut connected_peers = KeySet::new();
    connected_peers.insert(connected);
    let covered = covered_subnets(&server_subnets, &connected_peers);

    assert_eq!(covered, HashSet::from([1, 2]));
}

// --- Discovery ---

fn discovered(n: u8, subnets: Vec<u64>) -> DiscoveredPeer {
    DiscoveredPeer {
        peer_id: peer(n),
        subnets,
        addrs: vec![quic_addr(IpAddr::V4([127, 0, 0, n]), 9001)],
    }
}

#[test]
fn select_candidates_admits_a_well_formed_contact() {
    let (admitted, unwanted) = select_candidates(vec![Contact {
        node_id: root(1),
        admission: Some(Ok(discovered(1, vec![2]))),
    }]);

    assert_eq!(admitted.len(), 1);
    assert_eq!(admitted[0].subnets, vec![2]);
    assert!(unwanted.is_empty());
}

#[test]
fn select_candidates_skips_a_pending_enr_without_blacklisting_it() {
    let contact = Contact { node_id: root(1), admission: None };
    assert!(contact.admission.is_none());

    let (admitted, unwanted) = select_candidates(vec![contact]);

    assert!(admitted.is_empty());
    assert!(unwanted.is_empty());
}

#[test]
fn select_candidates_blacklists_a_fork_digest_mismatch() {
    let expected_node_id = root(3);
    let (admitted, unwanted) = select_candidates(vec![Contact {
        node_id: expected_node_id,
        admission: Some(Err(Refusal { permanent: true })),
    }]);

    assert!(admitted.is_empty());
    assert_eq!(unwanted, vec![expected_node_id], "a different network is a permanent rejection");
}

#[test]
fn select_candidates_does_not_blacklist_a_missing_quic_port() {
    let (admitted, unwanted) = select_candidates(vec![Contact {
        node_id: root(3),
        admission: Some(Err(Refusal { permanent: false })),
    }]);

    assert!(admitted.is_empty());
    assert!(unwanted.is_empty());
}

#[test]
fn the_dial_loop_rests_refills_and_dials() {
    let mut server = server();
    assert!(server.is_starved());
    assert_eq!(server.discovery_step(2), DiscoveryStep::Refill);
    server.add_candidates(vec![discovered(1, vec![1])]);
    assert_eq!(server.discovery_step(2), DiscoveryStep::Dial);
    connect(&mut server, 5);
    assert!(!server.is_starved());
    assert_eq!(server.discovery_step(2), DiscoveryStep::Dial);
    assert_eq!(server.discovery_step(1), DiscoveryStep::Rest);
    assert_eq!(server_with(lean_wire(), false).discovery_step(2), DiscoveryStep::Rest);
}

#[test]
fn candidates_are_dialed_best_first_up_to_the_shortfall() {
    let mut server = server();
    connect(&mut server, 2);
    server.add_candidates(vec![
        discovered(100, vec![]), // the node itself
        discovered(1, vec![1, 3]),
        discovered(2, vec![2]), // already connected
        discovered(3, vec![4]),
        discovered(4, vec![5]),
    ]);
    let dialed = server.dial_candidates(3, 10);
    let ids: Vec<PeerId> = dialed.iter().map(|d| d.peer_id).collect();
    assert_eq!(ids, vec![peer(1), peer(3)]);
    let state = server.discovery.as_ref().expect("discovery is on");
    assert_eq!(state.candidates.len(), 1);
    assert_eq!(state.peer_attnets.get(&peer(1)), Some(&vec![1, 3]));
    assert!(state.peer_attnets.get(&peer(4)).is_none());
    // A batch bounds the dials as well.
    assert_eq!(server.dial_candidates(100, 0).len(), 0);
    assert_eq!(server.dial_candidates(100, 10).len(), 1);
    assert_eq!(server.dial_candidates(100, 10).len(), 0);
}

#[test]
fn a_dialed_peer_covers_its_subnets_once_connected() {
    let mut server = server();
    server.add_candidates(vec![discovered(1, vec![1, 3]), discovered(2, vec![5])]);
    assert_eq!(server.dial_candidates(5, 10).len(), 2);
    assert_eq!(server.covered_by_peers(), HashSet::new());
    connect(&mut server, 1);
    assert_eq!(server.covered_by_peers(), HashSet::from([1, 3]));
    server.handle_swarm_event(SwarmEvent::ConnectionClosed {
        peer_id: peer(1),
        is_dialer: true,
        num_established: 0,
        cause: None,
    });
    connect(&mut server, 1);
    assert_eq!(server.covered_by_peers(), HashSet::new());
}

// --- Connections ---

#[test]
fn a_new_peer_is_greeted() {
    let mut server = server();
    let action = server.handle_swarm_event(SwarmEvent::ConnectionEstablished {
        peer_id: peer(1),
        is_dialer: true,
        remote: quic_addr(IpAddr::V4([127, 0, 0, 1]), 9000),
        num_established: 1,
    });
    match action {
        SwarmAction::Greet { name, direction, transport, peer_count, greeting } => {
            assert_eq!(name, "one");
            assert_eq!(direction, Direction::Outbound);
            assert_eq!(transport, Transport::Quic);
            assert_eq!(peer_count, 1);
            assert!(matches!(greeting, Greeting::Lean));
        }
        other => panic!("unexpected {other:?}"),
    }
    assert!(server.connected_peers.contains(&peer(1)));
    // A further connection of the same peer changes nothing.
    let action = server.handle_swarm_event(SwarmEvent::ConnectionEstablished {
        peer_id: peer(1),
        is_dialer: false,
        remote: tcp_addr(IpAddr::V4([127, 0, 0, 1]), 9000),
        num_established: 2,
    });
    assert!(matches!(action, SwarmAction::Ignore));
    assert_eq!(server.connected_peers.len(), 1);
}

#[test]
fn a_beacon_node_greets_with_its_fork() {
    let mut server = server_with(beacon_wire(), false);
    assert!(server.is_beacon());
    let action = server.handle_swarm_event(SwarmEvent::ConnectionEstablished {
        peer_id: peer(2),
        is_dialer: false,
        remote: tcp_addr(IpAddr::V4([127, 0, 0, 1]), 9000),
        num_established: 1,
    });
    match action {
        SwarmAction::Greet { name, direction, transport, greeting, .. } => {
            assert_eq!(name, "unknown");
            assert_eq!(direction, Direction::Inbound);
            assert_eq!(transport, Transport::Tcp);
            assert!(matches!(greeting, Greeting::Beacon { fork_digest: [1, 2, 3, 4] }));
        }
        other => panic!("unexpected {other:?}"),
    }
    assert!(matches!(
        server.handle_swarm_event(SwarmEvent::GossipMessage),
        SwarmAction::HandleBeaconGossip
    ));
}

#[test]
fn a_bootnode_that_leaves_is_dialed_again() {
    let mut server = server();
    connect(&mut server, 9);
    connect(&mut server, 1);
    let close = |peer_id, num_established| SwarmEvent::ConnectionClosed {
        peer_id,
        is_dialer: true,
        num_established,
        cause: Some("Connection RESET by peer".to_string()),
    };
    assert!(matches!(server.handle_swarm_event(close(peer(9), 1)), SwarmAction::Ignore));
    assert!(server.connected_peers.contains(&peer(9)));
    match server.handle_swarm_event(close(peer(9), 0)) {
        SwarmAction::CountLeft { reason, peer_count, redial_in_secs, .. } => {
            assert_eq!(reason, CloseReason::RemoteClose);
            assert_eq!(peer_count, 1);
            assert_eq!(redial_in_secs, Some(12));
        }
        other => panic!("unexpected {other:?}"),
    }
    assert!(server.wants_redial(&peer(9)));
    connect(&mut server, 9);
    assert!(!server.wants_redial(&peer(9)));
    match server.handle_swarm_event(close(peer(1), 0)) {
        SwarmAction::CountLeft { redial_in_secs, .. } => assert_eq!(redial_in_secs, None),
        other => panic!("unexpected {other:?}"),
    }
    assert!(!server.wants_redial(&peer(1)));
}

#[test]
fn a_failed_dial_is_counted_and_its_subnets_forgotten() {
    let mut server = server();
    server.add_candidates(vec![discovered(1, vec![1])]);
    server.dial_candidates(5, 5);
    let action = server.handle_swarm_event(SwarmEvent::OutgoingConnectionError {
        peer: Some(peer(1)),
        error: "Handshake TIMED OUT".to_string(),
    });
    match action {
        SwarmAction::CountFailedDial { name, failure, redial_in_secs } => {
            assert_eq!(name, "one");
            assert_eq!(failure, DialFailure::Timeout);
            assert_eq!(redial_in_secs, None);
        }
        other => panic!("unexpected {other:?}"),
    }
    assert!(server.discovery.as_ref().expect("on").peer_attnets.is_empty());
    let action = server.handle_swarm_event(SwarmEvent::OutgoingConnectionError {
        peer: Some(peer(9)),
        error: "refused".to_string(),
    });
    assert!(matches!(
        action,
        SwarmAction::CountFailedDial { failure: DialFailure::Error, redial_in_secs: Some(12), .. }
    ));
    let action = server.handle_swarm_event(SwarmEvent::OutgoingConnectionError {
        peer: None,
        error: "refused".to_string(),
    });
    assert!(matches!(action, SwarmAction::CountFailedDial { redial_in_secs: None, .. }));
    // A bootnode that is connected over another address is not dialed again.
    connect(&mut server, 9);
    let action = server.handle_swarm_event(SwarmEvent::OutgoingConnectionError {
        peer: Some(peer(9)),
        error: "refused".to_string(),
    });
    assert!(matches!(action, SwarmAction::CountFailedDial { redial_in_secs: None, .. }));
}

#[test]
fn refusals_at_capacity_are_told_apart_from_errors() {
    let mut server = server();
    for refused_at_capacity in [true, false] {
        let action = server.handle_swarm_event(SwarmEvent::IncomingConnectionError {
            peer: None,
            refused_at_capacity,
        });
        assert!(matches!(
            action,
            SwarmAction::CountRefused { at_capacity, name } if at_capacity == refused_at_capacity
                && name == "unknown"
        ));
    }
    assert!(matches!(server.handle_swarm_event(SwarmEvent::Other), SwarmAction::Ignore));
    assert!(matches!(
        server.handle_swarm_event(SwarmEvent::ReqResp),
        SwarmAction::HandleReqResp
    ));
    assert!(matches!(
        server.handle_swarm_event(SwarmEvent::GossipMessage),
        SwarmAction::HandleLeanGossip
    ));
}

#[test]
fn close_reasons_are_read_in_any_case() {
    let reason = |text: &str| close_reason(&Some(text.to_string()));
    assert_eq!(close_reason(&None), CloseReason::RemoteClose);
    assert_eq!(reason("Connection TIMEOUT"), CloseReason::Timeout);
    assert_eq!(reason("io: TimedOut"), CloseReason::Timeout);
    assert_eq!(reason("KeepAlive expired"), CloseReason::Timeout);
    assert_eq!(reason("ConnectionReset"), CloseReason::RemoteClose);
    assert_eq!(reason("timeout after reset"), CloseReason::Timeout);
    assert_eq!(reason("broken pipe"), CloseReason::Error);
    assert_eq!(reason_in_text("Timeout"), CloseReason::Error);
    assert_eq!(dial_failure("Timed Out"), DialFailure::Timeout);
    assert_eq!(dial_failure("timeout"), DialFailure::Error);
    assert_eq!(connection_direction(true).label(), "outbound");
    assert_eq!(connection_direction(false).label(), "inbound");
    assert_eq!(CloseReason::RemoteClose.label(), "remote_close");
    assert_eq!(CloseReason::Timeout.label(), "timeout");
    assert_eq!(CloseReason::Error.label(), "error");
    assert_eq!(DialFailure::Timeout.label(), "timeout");
    assert_eq!(DialFailure::Error.label(), "error");
}

// --- Fetching by root ---

#[test]
fn nobody_is_asked_when_nobody_is_connected() {
    let mut server = server();
    assert!(server.fetch_block_from_peer(&root(1)).is_none());
    assert!(server.fetch_candidates(&root(1)).is_empty());
}

#[test]
fn a_connected_peer_is_asked() {
    let mut server = server();
    connect(&mut server, 1);
    connect(&mut server, 2);
    let asked = server.fetch_block_from_peer(&root(1)).expect("a peer");
    assert!(asked == peer(1) || asked == peer(2));
    assert!(server.wants_fetch(&root(1)));
    assert!(server.on_fetch_sent(root(1), Some(RequestId(4))));
    assert!(!server.wants_fetch(&root(1)));
    assert!(!server.on_fetch_sent(root(2), None));
    assert!(server.wants_fetch(&root(2)));
}

#[test]
fn failed_peers_are_asked_last() {
    let mut server = server();
    connect(&mut server, 1);
    connect(&mut server, 2);
    server.on_fetch_sent(root(1), Some(RequestId(4)));
    server.handle_fetch_failure(&root(1), peer(1));
    assert_eq!(server.fetch_candidates(&root(1)), vec![peer(2)]);
    assert_eq!(server.fetch_block_from_peer(&root(1)), Some(peer(2)));
    assert_eq!(server.fetch_candidates(&root(9)).len(), 2);
    // Once all have failed, all may be asked again, and the slate is clean.
    server.handle_fetch_failure(&root(1), peer(2));
    assert_eq!(server.fetch_candidates(&root(1)).len(), 2);
    let fetch = server.pending_root_requests.get(&root(1)).expect("pending");
    assert!(fetch.failed_peers.is_empty());
    assert_eq!(fetch.attempts, 3);
}

#[test]
fn the_wait_doubles_until_the_fetch_is_given_up() {
    let mut server = server();
    assert_eq!(server.handle_fetch_failure(&root(1), peer(1)), FetchFailure::NotPending);
    server.on_fetch_sent(root(1), Some(RequestId(4)));
    for backoff_ms in [5u64, 10, 20, 40, 80, 160, 320, 640, 1280, 2560] {
        assert_eq!(
            server.handle_fetch_failure(&root(1), peer(1)),
            FetchFailure::Retry { backoff_ms }
        );
        assert!(server.wants_retry(&root(1)));
    }
    assert_eq!(server.handle_fetch_failure(&root(1), peer(1)), FetchFailure::GaveUp);
    assert!(!server.wants_retry(&root(1)));
    assert_eq!(backoff(1), 5);
    assert_eq!(backoff(MAX_FETCH_RETRIES), 2560);
}

#[test]
fn a_retry_keeps_its_count() {
    let mut server = server();
    server.on_fetch_sent(root(1), Some(RequestId(4)));
    server.handle_fetch_failure(&root(1), peer(1));
    server.on_fetch_sent(root(1), Some(RequestId(5)));
    assert_eq!(server.pending_root_requests.get(&root(1)).expect("pending").attempts, 2);
    server.end_fetch(&root(1));
    assert!(server.wants_fetch(&root(1)));
}

// --- Serving ---

#[test]
fn requests_are_answered() {
    let mut server = server();
    let mut ask = |request| server.handle_req_resp_message(ReqRespEvent::Request(request), 10);
    assert!(matches!(ask(InboundRequest::Status), ReqRespAction::AnswerStatus));
    assert!(matches!(ask(InboundRequest::BlocksByRoot), ReqRespAction::AnswerBlocksByRoot));
    assert!(matches!(ask(InboundRequest::Beacon), ReqRespAction::HandleBeaconRequest));
    assert!(matches!(
        ask(InboundRequest::BlocksByRange { start_slot: 5, count: 3 }),
        ReqRespAction::AnswerBlocksByRange(RangeAnswer::Slots { start_slot: 5, end_slot: 7 })
    ));
    for event in [ReqRespEvent::InboundFailure, ReqRespEvent::ResponseSent] {
        assert!(matches!(server.handle_req_resp_message(event, 10), ReqRespAction::Ignore));
    }
}

#[test]
fn ranges_are_served_within_limits() {
    assert_eq!(handle_blocks_by_range_request(5, 0), RangeAnswer::Invalid);
    assert_eq!(handle_blocks_by_range_request(5, 1025), RangeAnswer::Invalid);
    assert_eq!(
        handle_blocks_by_range_request(5, 1024),
        RangeAnswer::Slots { start_slot: 5, end_slot: 1028 }
    );
    assert_eq!(
        handle_blocks_by_range_request(u64::MAX, 1),
        RangeAnswer::Slots { start_slot: u64::MAX, end_slot: u64::MAX }
    );
    assert_eq!(handle_blocks_by_range_request(u64::MAX, 2), RangeAnswer::Empty);
    assert_eq!(canonical_blocks_by_range(5, 0), None);
    assert_eq!(canonical_blocks_by_range(1, 4), Some(4));
}

#[test]
fn roots_without_a_block_are_passed_over() {
    assert_eq!(
        handle_blocks_by_root_request(vec![Some("a"), None, Some("b"), None]),
        vec!["a", "b"]
    );
    assert_eq!(handle_blocks_by_root_request(Vec::<Option<u8>>::new()), Vec::<u8>::new());
}

#[test]
fn a_status_names_head_and_finalized_block() {
    let status = build_status(Checkpoint { root: root(1), slot: 4 }, root(2), 9);
    assert_eq!((status.finalized.root, status.finalized.slot), (root(1), 4));
    assert_eq!((status.head.root, status.head.slot), (root(2), 9));
}

// --- Catching up ---

#[test]
fn a_peer_that_is_ahead_opens_a_session() {
    let mut server = server();
    let request = open_session(&mut server, 15, 7);
    assert_eq!(request.peer, peer(1));
    assert_eq!((request.start_slot, request.count), (11, 5));
    let state = server.range_sync_state.as_ref().expect("a session");
    assert!(state.in_flight);
    assert_eq!(state.current_range, 11..16);
    assert!(matches!(
        server.outbound_requests.get(&RequestId(7)),
        Some(PendingRequestKind::Range { start_slot: 11, end_slot: 15 })
    ));
}

#[test]
fn a_peer_that_is_not_ahead_opens_none() {
    let mut server = server();
    for head_slot in [0, 9, 10] {
        assert!(matches!(
            respond(&mut server, 1, InboundResponse::Status { head_slot }),
            ReqRespAction::RequestRange(None)
        ));
    }
    assert!(server.range_sync_state.is_none());
}

#[test]
fn a_session_takes_on_a_bounded_range() {
    let mut server = server();
    open_session(&mut server, 1_000_000, 7);
    let state = server.range_sync_state.as_ref().expect("a session");
    assert_eq!(state.current_range, 11..(11 + 65_536));
    // While a batch is under way a further status only extends the session.
    assert!(matches!(
        respond(&mut server, 1, InboundResponse::Status { head_slot: 2_000_000 }),
        ReqRespAction::RequestRange(None)
    ));
}

#[test]
fn a_batch_is_passed_on_and_followed_by_the_next() {
    let mut server = server();
    let request = open_session(&mut server, 2000, 7);
    assert_eq!((request.start_slot, request.count), (11, 1024));
    let blocks = vec![block(11, 1), block(10, 2), block(1034, 3), block(1035, 4)];
    match respond(&mut server, 7, InboundResponse::Blocks(blocks)) {
        ReqRespAction::RangeBlocks(response) => {
            assert_eq!(response.forward, vec![0, 2]);
            let next = response.next.expect("a next batch");
            assert_eq!((next.start_slot, next.count), (1035, 966));
        }
        other => panic!("unexpected {other:?}"),
    }
    assert!(server.outbound_requests.get(&RequestId(7)).is_none());
}

#[test]
fn the_last_batch_closes_the_session() {
    let mut server = server();
    open_session(&mut server, 15, 7);
    match respond(&mut server, 7, InboundResponse::Blocks(vec![block(12, 1)])) {
        ReqRespAction::RangeBlocks(response) => {
            assert_eq!(response.forward, vec![0]);
            assert!(response.next.is_none());
        }
        other => panic!("unexpected {other:?}"),
    }
    assert!(server.range_sync_state.is_none());
}

#[test]
fn an_empty_batch_drops_the_peer() {
    let mut server = server();
    open_session(&mut server, 15, 7);
    match respond(&mut server, 7, InboundResponse::Blocks(vec![])) {
        ReqRespAction::RangeBlocks(response) => {
            assert!(response.forward.is_empty());
            assert!(response.next.is_none());
        }
        other => panic!("unexpected {other:?}"),
    }
    assert!(server.range_sync_state.is_none());
}

#[test]
fn without_a_chain_the_session_is_dropped() {
    let mut server = server();
    open_session(&mut server, 2000, 7);
    server.blockchain_linked = false;
    match respond(&mut server, 7, InboundResponse::Blocks(vec![block(12, 1)])) {
        ReqRespAction::RangeBlocks(response) => {
            assert!(response.forward.is_empty());
            assert!(response.next.is_none());
        }
        other => panic!("unexpected {other:?}"),
    }
    assert!(server.range_sync_state.is_none());
}

#[test]
fn a_batch_that_cannot_be_sent_or_fails_drops_the_peer() {
    let mut server = server();
    let request = RangeRequest { peer: peer(1), start_slot: 11, count: 5 };
    respond(&mut server, 1, InboundResponse::Status { head_slot: 15 });
    assert!(!server.on_range_sent(&request, None));
    assert!(server.range_sync_state.is_none());

    open_session(&mut server, 15, 7);
    assert!(matches!(fail(&mut server, 7, false), ReqRespAction::Ignore));
    assert!(server.range_sync_state.is_none());

    open_session(&mut server, 15, 8);
    assert!(matches!(respond(&mut server, 8, InboundResponse::Error), ReqRespAction::Ignore));
    assert!(server.range_sync_state.is_none());
    assert!(server.outbound_requests.is_empty());
}

// --- Responses by root ---

#[test]
fn the_block_that_was_asked_for_is_passed_on() {
    let mut server = server();
    server.on_fetch_sent(root(1), Some(RequestId(4)));
    let blocks = vec![block(3, 2), block(4, 1)];
    match respond(&mut server, 4, InboundResponse::Blocks(blocks)) {
        ReqRespAction::RootBlocks { root: asked, response: RootResponse::Forward(places) } => {
            assert_eq!(asked, root(1));
            assert_eq!(places, vec![1]);
        }
        other => panic!("unexpected {other:?}"),
    }
    assert!(server.wants_fetch(&root(1)));
    assert!(server.outbound_requests.is_empty());
}

#[test]
fn other_blocks_leave_the_fetch_open() {
    let mut server = server();
    server.on_fetch_sent(root(1), Some(RequestId(4)));
    match respond(&mut server, 4, InboundResponse::Blocks(vec![block(3, 2)])) {
        ReqRespAction::RootBlocks { response: RootResponse::Forward(places), .. } => {
            assert!(places.is_empty());
        }
        other => panic!("unexpected {other:?}"),
    }
    assert!(!server.wants_fetch(&root(1)));
}

#[test]
fn without_a_chain_a_fetched_block_goes_nowhere() {
    let mut server = server();
    server.blockchain_linked = false;
    server.on_fetch_sent(root(1), Some(RequestId(4)));
    match respond(&mut server, 4, InboundResponse::Blocks(vec![block(3, 1)])) {
        ReqRespAction::RootBlocks { response: RootResponse::Forward(places), .. } => {
            assert!(places.is_empty());
        }
        other => panic!("unexpected {other:?}"),
    }
    assert!(server.wants_fetch(&root(1)));
}

#[test]
fn an_empty_response_by_root_is_a_failure() {
    let mut server = server();
    server.on_fetch_sent(root(1), Some(RequestId(4)));
    match respond(&mut server, 4, InboundResponse::Blocks(vec![])) {
        ReqRespAction::RootBlocks { response: RootResponse::Failed(failure), .. } => {
            assert_eq!(failure, FetchFailure::Retry { backoff_ms: 5 });
        }
        other => panic!("unexpected {other:?}"),
    }
    assert!(server.outbound_requests.contains_key(&RequestId(4)));
    assert!(server
        .pending_root_requests
        .get(&root(1))
        .expect("pending")
        .failed_peers
        .contains(&peer(1)));
}

#[test]
fn a_failed_request_by_root_is_tried_again() {
    let mut server = server();
    server.on_fetch_sent(root(1), Some(RequestId(4)));
    match fail(&mut server, 4, false) {
        ReqRespAction::FetchFailed { root: r, failure } => {
            assert_eq!(r, root(1));
            assert_eq!(failure, FetchFailure::Retry { backoff_ms: 5 });
        }
        other => panic!("unexpected {other:?}"),
    }
    assert!(server.outbound_requests.is_empty());
}

#[test]
fn an_error_response_by_root_keeps_the_request() {
    let mut server = server();
    server.on_fetch_sent(root(1), Some(RequestId(4)));
    assert!(matches!(respond(&mut server, 4, InboundResponse::Error), ReqRespAction::Ignore));
    assert!(server.outbound_requests.contains_key(&RequestId(4)));
    assert_eq!(server.pending_root_requests.get(&root(1)).expect("pending").attempts, 1);
}

// --- The beacon side ---

fn ask_beacon(server: &mut P2PServer, id: u64, kind: PendingRequestKind) {
    server.outbound_requests.insert(RequestId(id), kind);
}

#[test]
fn beacon_responses_are_handed_on() {
    let mut server = server_with(beacon_wire(), false);
    assert!(matches!(
        respond(&mut server, 1, InboundResponse::BeaconStatus),
        ReqRespAction::HandleBeaconStatus
    ));
    assert!(matches!(
        respond(&mut server, 1, InboundResponse::BeaconOther),
        ReqRespAction::HandleBeaconOther
    ));
    ask_beacon(&mut server, 2, PendingRequestKind::BeaconRange { start_slot: 3, end_slot: 5 });
    assert!(matches!(
        respond(&mut server, 2, InboundResponse::BeaconBlocks),
        ReqRespAction::HandleBeaconRange { start_slot: 3, end_slot: 5 }
    ));
    ask_beacon(&mut server, 3, PendingRequestKind::BeaconRoot(root(1)));
    assert!(matches!(
        respond(&mut server, 3, InboundResponse::BeaconBlocks),
        ReqRespAction::HandleBeaconRoot(r) if r == root(1)
    ));
    assert!(server.outbound_requests.is_empty());
}

#[test]
fn responses_of_the_wrong_kind_leave_the_request_open() {
    let mut server = server();
    ask_beacon(&mut server, 2, PendingRequestKind::BeaconRange { start_slot: 3, end_slot: 5 });
    assert!(matches!(
        respond(&mut server, 2, InboundResponse::Blocks(vec![block(3, 1)])),
        ReqRespAction::Unexpected
    ));
    server.on_fetch_sent(root(1), Some(RequestId(4)));
    assert!(matches!(
        respond(&mut server, 4, InboundResponse::BeaconBlocks),
        ReqRespAction::Unexpected
    ));
    assert!(matches!(
        respond(&mut server, 99, InboundResponse::BeaconBlocks),
        ReqRespAction::Unexpected
    ));
    assert_eq!(server.outbound_requests.len(), 2);
}

#[test]
fn failures_of_beacon_requests() {
    let mut server = server_with(beacon_wire(), false);
    server.beacon_pending_root_requests.insert(
        root(1),
        PendingRequest { attempts: 1, failed_peers: KeySet::new() },
    );
    assert!(!server.wants_beacon_fetch(&root(1)));
    assert!(server.wants_beacon_fetch(&root(2)));
    for error in [true, false] {
        let mut end = |kind| {
            ask_beacon(&mut server, 5, kind);
            if error {
                respond(&mut server, 5, InboundResponse::Error)
            } else {
                fail(&mut server, 5, true)
            }
        };
        assert!(matches!(
            end(PendingRequestKind::BeaconRange { start_slot: 3, end_slot: 5 }),
            ReqRespAction::RotateBeaconRange
        ));
        assert!(matches!(end(PendingRequestKind::BeaconRoot(root(1))), ReqRespAction::Ignore));
        assert!(matches!(end(PendingRequestKind::BeaconRoot(root(2))), ReqRespAction::Ignore));
    }
    let fetch = server.beacon_pending_root_requests.get(&root(1)).expect("pending");
    assert!(fetch.failed_peers.contains(&peer(1)));
    assert_eq!(server.beacon_pending_root_requests.len(), 1);
}

#[test]
fn an_unsupported_greeting_is_tried_in_the_other_version() {
    let mut server = server_with(beacon_wire(), false);
    assert!(matches!(fail(&mut server, 77, true), ReqRespAction::RetryStatusVersion));
    assert!(matches!(fail(&mut server, 77, false), ReqRespAction::Ignore));
    assert!(matches!(respond(&mut server, 77, InboundResponse::Error), ReqRespAction::Ignore));
}
