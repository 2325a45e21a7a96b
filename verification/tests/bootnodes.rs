use ethlambda::net::address::{quic_addr, tcp_addr, transport_label, IpAddr, Transport};
use ethlambda::net::bootnode::{
    bootnode_dial_addrs, bootnode_from_record, parse_enr, parse_enrs, Bootnode, EnrError,
    RecordPairs,
};
use ethlambda::net::identity::{derive_peer_ids, peer_id_of_secret};
use ethlambda::net::startup::{build_swarm, dial_bootnode, SwarmConfig};
use ethlambda::primitives::{PeerId, H256};
use ethrex_p2p::types::{NodeRecord, NodeRecordPairs};
use libp2p::identity::{secp256k1, Keypair, PublicKey};
use std::collections::HashSet;

const VALID: &str = "enr:-IW4QGGifTt9ypyMtChDISUNX3z4z5iPdiEPOmBoILvnDuWIKbWVmKXxZERPnw0piQyaBNCENFEPoIi-vxsnsrBig9MBgmlkgnY0gmlwhH8AAAGEcXVpY4IjKYlzZWNwMjU2azGhAhMMnGF1rmIPQ9tWgqfkNmvsG-aIyc9EJU5JFo3Tegys";

fn is_localhost(ip: &IpAddr) -> bool {
    matches!(ip, IpAddr::V4([127, 0, 0, 1]))
}

fn public_key(secret: u8) -> [u8; 33] {
    let secret = secp256k1::SecretKey::try_from_bytes(vec![secret; 32]).expect("a secret key");
    secp256k1::Keypair::from(secret).public().to_bytes()
}

fn libp2p_peer(secret: u8) -> libp2p::PeerId {
    let secret = secp256k1::SecretKey::try_from_bytes(vec![secret; 32]).expect("a secret key");
    let keys = Keypair::from(secp256k1::Keypair::from(secret));
    libp2p::PeerId::from_public_key(&keys.public())
}

fn same_peer(ours: &PeerId, theirs: &libp2p::PeerId) -> bool {
    let hash = theirs.as_ref();
    ours.code == hash.code()
        && ours.size == hash.size()
        && &ours.digest[..ours.size as usize] == hash.digest()
}

#[test]
fn parse_enrs_extracts_ip_port_and_public_key() {
    // Values taken from a local devnet run with lean-quickstart
    let enrs = vec![
        "enr:-IW4QGGifTt9ypyMtChDISUNX3z4z5iPdiEPOmBoILvnDuWIKbWVmKXxZERPnw0piQyaBNCENFEPoIi-vxsnsrBig9MBgmlkgnY0gmlwhH8AAAGEcXVpY4IjKYlzZWNwMjU2azGhAhMMnGF1rmIPQ9tWgqfkNmvsG-aIyc9EJU5JFo3Tegys".to_string(),
        "enr:-IW4QPjoNZjNpzdjOqAR2rGguVAWmqpNCUCfbr-pp3rr6Dk6YO2KK5VWARr7BGr8BdmGmG75cBeVC2buzvtQ_nEWLKEBgmlkgnY0gmlwhH8AAAGEcXVpY4IjKolzZWNwMjU2azGhA5_HplOwUZ8wpF4O3g4CBsjRMI6kQYT7ph5LkeKzLgTS".to_string(),
        "enr:-IW4QNQN_PFdTfuYLGmdAWNivEJLT2tSZtn5jdBOImvh0QlLAJ1p8wHvvfD7aOa1lH88oJ8ddGK_a_FWqAQT_QY4qdMBgmlkgnY0gmlwhH8AAAGEcXVpY4IjK4lzZWNwMjU2azGhA7NTxgfOmGE2EQa4HhsXxFOeHdTLYIc2MEBczymm9IUN".to_string(),
        "enr:-IW4QI9EXVDvUIxTrCV51Gs2RtpmZu71S7ZP7RRg1OoSBVvGFeXkc5WleBffXwTcWX1Qa9F_N6MhH28TsGFhXkMCGvUBgmlkgnY0gmlwhH8AAAGEcXVpY4IjL4lzZWNwMjU2azGhA6Dm1X9PyyCNAm3RUGcZtG5U3imbj_MDPU5CtPnpeaKS".to_string(),
    ];

    let bootnodes = parse_enrs(enrs);

    assert_eq!(bootnodes.len(), 4);

    // All ENRs encode 127.0.0.1 as the IPv4 address
    for bootnode in &bootnodes {
        assert!(is_localhost(&bootnode.ip));
    }

    // Each ENR encodes a distinct QUIC port
    assert_eq!(bootnodes[0].quic_port, Some(9001));
    assert_eq!(bootnodes[1].quic_port, Some(9002));
    assert_eq!(bootnodes[2].quic_port, Some(9003));
    assert_eq!(bootnodes[3].quic_port, Some(9007));

    // Verify the secp256k1 public keys (33-byte compressed format)
    let expected_pubkeys: Vec<[u8; 33]> = vec![
        hex::decode("02130c9c6175ae620f43db5682a7e4366bec1be688c9cf44254e49168dd37a0cac")
            .unwrap()
            .try_into()
            .unwrap(),
        hex::decode("039fc7a653b0519f30a45e0ede0e0206c8d1308ea44184fba61e4b91e2b32e04d2")
            .unwrap()
            .try_into()
            .unwrap(),
        hex::decode("03b353c607ce9861361106b81e1b17c4539e1dd4cb60873630405ccf29a6f4850d")
            .unwrap()
            .try_into()
            .unwrap(),
        hex::decode("03a0e6d57f4fcb208d026dd1506719b46e54de299b8ff3033d4e42b4f9e979a292")
            .unwrap()
            .try_into()
            .unwrap(),
    ];

    for (bootnode, expected) in bootnodes.iter().zip(expected_pubkeys.iter()) {
        let secp_key = secp256k1::PublicKey::try_from_bytes(expected).unwrap();
        let expected_key: PublicKey = secp_key.into();
        let key = secp256k1::PublicKey::try_from_bytes(&bootnode.public_key).unwrap();
        assert_eq!(PublicKey::from(key), expected_key);
        assert_eq!(&bootnode.public_key, expected);
    }

    // Devnet ENRs from lean-quickstart carry no `udp` entry, so they cannot
    // seed discv5 even though they remain dialable over QUIC.
    for bootnode in &bootnodes {
        assert_eq!(bootnode.udp_port, None);
    }
}

#[test]
fn parse_enrs_extracts_the_udp_port_when_present() {
    // udp for discv5, quic for libp2p, no tcp.
    let pairs = NodeRecordPairs {
        id: Some("v4".to_string()),
        ip: Some([127, 0, 0, 1].into()),
        udp_port: Some(9010),
        tcp_port: None,
        secp256k1: Some(public_key(7).into()),
        other: vec![(b"quic".to_vec().into(), vec![0x82, 0x23, 0x29].into())],
        ..Default::default()
    };
    let record = NodeRecord::new(Default::default(), 1, pairs);

    let bootnodes = parse_enrs(vec![record.enr_url().unwrap()]);

    assert_eq!(bootnodes.len(), 1);
    assert!(is_localhost(&bootnodes[0].ip));
    assert_eq!(bootnodes[0].quic_port, Some(9001));
    assert_eq!(bootnodes[0].udp_port, Some(9010));
}

#[test]
fn parse_enrs_keeps_a_quic_less_record_as_a_discovery_seed() {
    let enrs = vec![
        "enr:-Iu4QLm7bZGdAt9NSeJG0cEnJohWcQTQaI9wFLu3Q7eHIDfrI4cwtzvEW3F3VbG9XdFXlrHyFGeXPn9snTCQJ9bnMRABgmlkgnY0gmlwhAOTJQCJc2VjcDI1NmsxoQIZdZD6tDYpkpEfVo5bgiU8MGRjhcOmHGD2nErK0UKRrIN0Y3CCIyiDdWRwgiMo".to_string(),
        "enr:-Le4QPUXJS2BTORXxyx2Ia-9ae4YqA_JWX3ssj4E_J-3z1A-HmFGrU8BpvpqhNabayXeOZ2Nq_sbeDgtzMJpLLnXFgAChGV0aDKQtTA_KgEAAAAAIgEAAAAAAIJpZIJ2NIJpcISsaa0Zg2lwNpAkAIkHAAAAAPA8kv_-awoTiXNlY3AyNTZrMaEDHAD2JKYevx89W0CcFJFiskdcEzkH_Wdv9iW42qLK79ODdWRwgiMohHVkcDaCI4I".to_string(),
    ];

    let bootnodes = parse_enrs(enrs);

    assert_eq!(bootnodes.len(), 2, "a quic-less ENR is still a valid seed");
    for bootnode in &bootnodes {
        assert_eq!(bootnode.quic_port, None);
        // A `udp` port means discv5 can use them, which is what
        // `as_discovery_node` reports.
        assert_eq!(bootnode.udp_port, Some(9000));
        assert!(bootnode.as_discovery_node().is_some());
    }
}

#[test]
fn parse_enrs_skips_malformed_records_but_keeps_the_valid_one() {
    let enrs = vec![
        "not-an-enr-at-all".to_string(),       // missing "enr:" prefix
        "enr:not valid base64!!!".to_string(), // non-base64 garbage
        "enr:AAAAAAAAAAAAAAAA".to_string(),    // valid base64, not valid RLP
        VALID.to_string(),
    ];

    let bootnodes = parse_enrs(enrs);

    assert_eq!(bootnodes.len(), 1, "exactly the one valid ENR must survive");
    assert!(is_localhost(&bootnodes[0].ip));
    assert_eq!(bootnodes[0].quic_port, Some(9001));
}

#[test]
fn unusable_texts_are_told_apart() {
    assert!(matches!(parse_enr("not-an-enr-at-all"), Err(EnrError::MissingPrefix)));
    assert!(matches!(parse_enr(""), Err(EnrError::MissingPrefix)));
    assert!(matches!(parse_enr("enr"), Err(EnrError::MissingPrefix)));
    assert!(matches!(parse_enr("enr:"), Err(EnrError::Undecodable(_))));
    assert!(matches!(parse_enr("enr:AAAAAAAAAAAAAAAA"), Err(EnrError::Undecodable(_))));
    assert!(parse_enr(VALID).is_ok());
}

fn record(port: Option<Vec<u8>>) -> RecordPairs {
    RecordPairs {
        ip: Some([10, 0, 0, 1]),
        ip6: Some([6; 16]),
        tcp_port: None,
        udp_port: None,
        secp256k1: Some(public_key(7)),
        other: port.into_iter().map(|p| (b"quic".to_vec(), p)).collect(),
    }
}

#[test]
fn a_bad_key_in_a_record_is_noticed() {
    let pairs = NodeRecordPairs {
        id: Some("v4".to_string()),
        ip: Some([127, 0, 0, 1].into()),
        udp_port: Some(9010),
        secp256k1: Some([0xffu8; 33].into()),
        ..Default::default()
    };
    let url = NodeRecord::new(Default::default(), 1, pairs).enr_url().unwrap();
    assert_eq!(
        parse_enr(&url).expect_err("no key").reason(),
        "bad secp256k1 key: Key decoding error: failed to parse secp256k1 public key"
    );
    assert!(matches!(
        bootnode_from_record(&record(Some(vec![0x05])), Some("broken".to_string())),
        Err(EnrError::BadKey(text)) if text == "broken"
    ));
}

#[test]
fn a_record_needs_a_key_an_address_and_a_port() {
    let mut no_key = record(Some(vec![0x05]));
    no_key.secp256k1 = None;
    assert!(matches!(bootnode_from_record(&no_key, None), Err(EnrError::MissingKey)));

    let mut no_ip = record(Some(vec![0x05]));
    no_ip.ip = None;
    assert!(matches!(
        bootnode_from_record(&no_ip, None),
        Ok(Bootnode { ip: IpAddr::V6(octets), .. }) if octets == [6; 16]
    ));
    no_ip.ip6 = None;
    assert!(matches!(bootnode_from_record(&no_ip, None), Err(EnrError::MissingIp)));

    let mut no_port = record(None);
    assert!(matches!(bootnode_from_record(&no_port, None), Err(EnrError::NoPort)));
    no_port.tcp_port = Some(0);
    assert!(matches!(bootnode_from_record(&no_port, None), Err(EnrError::NoPort)));
    no_port.udp_port = Some(0);
    assert!(bootnode_from_record(&no_port, None).is_ok());
}

#[test]
fn ports_are_read_in_their_shortest_encoding_alone() {
    let port = |bytes: Vec<u8>| {
        let mut r = record(Some(bytes));
        r.udp_port = Some(1);
        bootnode_from_record(&r, None).expect("a bootnode").quic_port
    };
    assert_eq!(port(vec![0x05]), Some(5));
    assert_eq!(port(vec![0x7f]), Some(127));
    assert_eq!(port(vec![0x80]), None); // zero
    assert_eq!(port(vec![0x00]), None);
    assert_eq!(port(vec![0x81, 0x80]), Some(128));
    assert_eq!(port(vec![0x81, 0x05]), None);
    assert_eq!(port(vec![0x82, 0x23, 0x29]), Some(9001));
    assert_eq!(port(vec![0x82, 0x00, 0x29]), None);
    assert_eq!(port(vec![0x82, 0xff, 0xff]), Some(65_535));
    assert_eq!(port(vec![0x83, 0x01, 0x00, 0x00]), None);
    assert_eq!(port(vec![0xc1, 0x05]), None); // a list
    assert_eq!(port(vec![0x05, 0x05]), None); // something behind it
    assert_eq!(port(vec![]), None);
}

#[test]
fn the_first_quic_entry_counts() {
    let mut r = record(None);
    r.udp_port = Some(1);
    r.other = vec![
        (b"quic6".to_vec(), vec![0x01]),
        (b"quic".to_vec(), vec![0x02]),
        (b"quic".to_vec(), vec![0x03]),
    ];
    assert_eq!(bootnode_from_record(&r, None).expect("a bootnode").quic_port, Some(2));
}

#[test]
fn reasons_are_given_in_words() {
    assert_eq!(EnrError::MissingPrefix.reason(), "missing enr: prefix");
    assert_eq!(EnrError::Undecodable("x".to_string()).reason(), "RLP decode failed: x");
    assert_eq!(
        parse_enr("enr:").expect_err("no record").reason(),
        "RLP decode failed: InvalidLength"
    );
    assert_eq!(EnrError::MissingKey.reason(), "node record missing public key");
    assert_eq!(EnrError::BadKey("x".to_string()).reason(), "bad secp256k1 key: x");
    assert_eq!(EnrError::MissingIp.reason(), "node record missing IP address");
    assert_eq!(
        EnrError::NoPort.reason(),
        "node advertises neither a quic, a tcp, nor a udp port"
    );
}

fn bootnode(secret: u8, quic: Option<u16>, tcp: Option<u16>, udp: Option<u16>) -> Bootnode {
    Bootnode {
        ip: IpAddr::V4([127, 0, 0, 1]),
        quic_port: quic,
        tcp_port: tcp,
        udp_port: udp,
        public_key: public_key(secret),
    }
}

#[test]
fn a_discovery_seed_has_the_uncompressed_key() {
    let node = bootnode(7, None, Some(30), Some(40)).as_discovery_node().expect("a seed");
    assert_eq!((node.udp_port, node.tcp_port), (40, 30));
    assert!(is_localhost(&node.ip));
    let key = secp256k1::PublicKey::try_from_bytes(&public_key(7)).unwrap();
    assert_eq!(node.public_key[..], key.to_bytes_uncompressed()[1..]);

    let node = bootnode(7, None, None, Some(40)).as_discovery_node().expect("a seed");
    assert_eq!(node.tcp_port, 0);
    assert!(bootnode(7, Some(1), Some(2), None).as_discovery_node().is_none());
    let mut broken = bootnode(7, None, None, Some(40));
    broken.public_key = [0xff; 33];
    assert!(broken.as_discovery_node().is_none());
}

#[test]
fn bootnodes_are_dialed_over_quic_first() {
    let id = libp2p_peer(7);
    let ours = peer_id_of_secret(&[7; 32]).expect("a secret key");
    assert!(same_peer(&ours, &id));
    let texts = |b: &Bootnode| -> Vec<String> {
        bootnode_dial_addrs(b, ours).iter().map(|a| a.to_string()).collect()
    };
    assert_eq!(
        texts(&bootnode(7, Some(9001), Some(9002), None)),
        vec![
            format!("/ip4/127.0.0.1/udp/9001/quic-v1/p2p/{id}"),
            format!("/ip4/127.0.0.1/tcp/9002/p2p/{id}"),
        ]
    );
    assert_eq!(
        texts(&bootnode(7, None, Some(9002), None)),
        vec![format!("/ip4/127.0.0.1/tcp/9002/p2p/{id}")]
    );
    assert!(texts(&bootnode(7, None, None, Some(9000))).is_empty());
    let mut six = bootnode(7, None, Some(9002), None);
    six.ip = IpAddr::V6([0, 0, 0, 0, 0, 0, 0, 0, 0, 0, 0, 0, 0, 0, 0, 1]);
    assert_eq!(texts(&six), vec![format!("/ip6/::1/tcp/9002/p2p/{id}")]);
}

#[test]
fn the_transport_is_read_off_the_address() {
    let ip = IpAddr::V4([1, 2, 3, 4]);
    assert_eq!(transport_label(&quic_addr(ip, 9)), Transport::Quic);
    assert_eq!(transport_label(&tcp_addr(ip, 9)), Transport::Tcp);
    assert_eq!(transport_label(&"/ip4/1.2.3.4/udp/9/quic".parse().unwrap()), Transport::Quic);
    assert_eq!(transport_label(&"/ip4/1.2.3.4/udp/9".parse().unwrap()), Transport::Unknown);
    assert_eq!(transport_label(&"/memory/5".parse().unwrap()), Transport::Unknown);
    assert_eq!(Transport::Quic.label(), "quic");
    assert_eq!(Transport::Tcp.label(), "tcp");
    assert_eq!(Transport::Unknown.label(), "unknown");
}

#[test]
fn names_stand_under_the_ids_of_their_keys() {
    let names = derive_peer_ids(vec![
        ("alpha".to_string(), H256([7; 32])),
        ("broken".to_string(), H256([0; 32])),
        ("beta".to_string(), H256([8; 32])),
        ("gamma".to_string(), H256([7; 32])),
    ]);
    assert_eq!(names.len(), 2);
    let seven = peer_id_of_secret(&[7; 32]).unwrap();
    let eight = peer_id_of_secret(&[8; 32]).unwrap();
    assert_eq!(names.get(&seven).map(String::as_str), Some("gamma"));
    assert_eq!(names.get(&eight).map(String::as_str), Some("beta"));
    assert!(same_peer(&eight, &libp2p_peer(8)));
    assert!(peer_id_of_secret(&[0; 32]).is_none());
}

fn config(node_key: Vec<u8>, bootnodes: Vec<Bootnode>) -> SwarmConfig {
    SwarmConfig {
        node_key,
        bootnodes,
        listen_ip: IpAddr::V4([127, 0, 0, 1]),
        listen_port: 9000,
        validator_ids: vec![6, 9],
        attestation_committee_count: 4,
        subscription_subnets: HashSet::from([1, 2]),
    }
}

#[test]
fn a_node_dials_the_bootnodes_it_can_and_not_itself() {
    let plan = build_swarm(
        config(
            vec![1; 32],
            vec![
                bootnode(1, Some(9001), None, None),
                bootnode(2, Some(9002), None, None),
                bootnode(3, None, None, Some(9003)),
                bootnode(4, None, Some(9004), None),
            ],
        ),
        1_000_000,
    )
    .expect("a node key");
    assert!(same_peer(&plan.local_peer_id, &libp2p_peer(1)));
    assert_eq!(plan.dials.len(), 2);
    assert!(same_peer(&plan.dials[0].peer_id, &libp2p_peer(2)));
    assert!(same_peer(&plan.dials[1].peer_id, &libp2p_peer(4)));
    assert_eq!(plan.dials[1].addrs.len(), 1);
    assert_eq!(plan.quic_addr.to_string(), "/ip4/127.0.0.1/udp/9000/quic-v1");
    assert_eq!(plan.tcp_addr.to_string(), "/ip4/127.0.0.1/tcp/9000");
    assert_eq!(plan.metric_subnet, 1);
    assert_eq!(plan.subscription_subnets, HashSet::from([1, 2]));
    assert_eq!(plan.gossipsub.seen_ttl_secs, 24);
    assert_eq!(plan.gossipsub.max_transmit_size, 1_000_000);
    assert!(plan.limits.max_established.is_none());
}

#[test]
fn a_bootnode_is_dialed_by_others_alone() {
    let two = peer_id_of_secret(&[2; 32]).unwrap();
    let one = peer_id_of_secret(&[1; 32]).unwrap();
    let node = bootnode(2, Some(9002), None, None);
    assert!(dial_bootnode(&node, two, &two).is_none());
    assert_eq!(dial_bootnode(&node, two, &one).expect("a dial").addrs.len(), 1);
}

#[test]
fn a_node_without_a_key_sets_up_nothing() {
    assert!(build_swarm(config(vec![0; 32], Vec::new()), 1).is_none());
    assert!(build_swarm(config(vec![1; 5], Vec::new()), 1).is_none());
}
