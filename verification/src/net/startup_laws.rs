//! What holds of bootnodes, addresses, subnets and names, however a node is started.
use crate::net::address::{
    first_transport, ip_hop, part_transport, quic_parts, tcp_parts, AddrPart, Hop, IpAddr,
    Transport,
};
use crate::net::bootnode::{
    base64_bytes, bootnode_of, dial_parts, dialable, discovery_node_of, enr_prefix, entry_of,
    ip_of, node_record, parsed_enr, quic_key, quic_port_of, rlp_port, usable, Bootnode,
    DiscoveryNode, EnrErrorView, RecordView,
};
use crate::net::identity::{
    key_fault_of, names_by_peer, peer_of_key, peer_of_secret, public_key_of,
};
use crate::net::message_id::{message_id_of, message_preimage};
use crate::net::startup::{dial_of, dials_of};
use crate::net::subnets::{own_subnets, subscription};
use crate::primitives::{PeerId, H256};
use vstd::prelude::*;

verus! {

// Bootnodes.

/// A record with a sound key, an address and a TCP port other than 0 describes a bootnode with
/// that port, and the bootnode is dialed at it.
pub proof fn law_tcp_ports_are_dialed(record: RecordView, ip: IpAddr, port: u16, peer: PeerId)
    requires
        record.secp256k1 is Some,
        ip_of(record) == Some(ip),
        record.tcp_port == Some(port),
        port != 0,
    ensures
        bootnode_of(record, None) matches Ok(bootnode) && bootnode.tcp_port == Some(port)
            && bootnode.ip == ip && dial_parts(bootnode, peer).contains(
            seq![ip_hop(ip), AddrPart::Hop(Hop::Tcp(port)), AddrPart::P2p(peer)],
        ),
{
    let bootnode = bootnode_of(record, None)->Ok_0;
    let parts = dial_parts(bootnode, peer);
    let tcp = seq![ip_hop(ip), AddrPart::Hop(Hop::Tcp(port)), AddrPart::P2p(peer)];
    assert(tcp_parts(ip, port).push(AddrPart::P2p(peer)) =~= tcp);
    let at: int = if bootnode.quic_port is Some {
        1
    } else {
        0
    };
    assert(parts[at] == tcp);
}

/// A record with a sound key, an address and a QUIC port other than 0 describes a bootnode with
/// that port, and the bootnode is dialed at it first.
pub proof fn law_quic_ports_are_dialed_first(
    record: RecordView,
    ip: IpAddr,
    item: Seq<u8>,
    port: u16,
    peer: PeerId,
)
    requires
        record.secp256k1 is Some,
        ip_of(record) == Some(ip),
        entry_of(record.other, quic_key()) == Some(item),
        rlp_port(item) == Some(port),
        port != 0,
    ensures
        bootnode_of(record, None) matches Ok(bootnode) && bootnode.quic_port == Some(port)
            && bootnode.ip == ip && dial_parts(bootnode, peer).len() > 0 && dial_parts(
            bootnode,
            peer,
        )[0] == seq![
            ip_hop(ip),
            AddrPart::Hop(Hop::Udp(port)),
            AddrPart::Hop(Hop::QuicV1),
            AddrPart::P2p(peer),
        ],
{
    assert(quic_parts(ip, port).push(AddrPart::P2p(peer)) =~= seq![
        ip_hop(ip),
        AddrPart::Hop(Hop::Udp(port)),
        AddrPart::Hop(Hop::QuicV1),
        AddrPart::P2p(peer),
    ]);
}

/// A record with a sound key, an address and a discovery port describes a bootnode that seeds
/// discovery at that port, whether or not it can be dialed.
pub proof fn law_discovery_ports_are_kept(record: RecordView, port: u16)
    requires
        record.secp256k1 is Some,
        ip_of(record) is Some,
        record.udp_port == Some(port),
    ensures
        bootnode_of(record, None) matches Ok(bootnode) && bootnode.udp_port == Some(port),
{
}

/// A bootnode has what its record has, and nothing that it has not.
pub proof fn law_bootnodes_are_as_their_records(
    record: RecordView,
    key_fault: Option<Seq<char>>,
    bootnode: Bootnode,
)
    requires
        bootnode_of(record, key_fault) == Ok::<Bootnode, EnrErrorView>(bootnode),
    ensures
        record.secp256k1 == Some(bootnode.public_key),
        key_fault is None,
        ip_of(record) == Some(bootnode.ip),
        bootnode.udp_port == record.udp_port,
        bootnode.tcp_port matches Some(port) ==> port != 0 && record.tcp_port == Some(port),
        record.tcp_port matches Some(port) ==> port != 0 ==> bootnode.tcp_port == Some(port),
        bootnode.quic_port matches Some(port) ==> port != 0 && (entry_of(
            record.other,
            quic_key(),
        ) matches Some(item) && rlp_port(item) == Some(port)),
        bootnode.quic_port is Some || bootnode.tcp_port is Some || bootnode.udp_port is Some,
{
}

/// Why a record describes no bootnode: it has no key, or one that is none, or no address, or no
/// port of any kind, in this order.
pub proof fn law_records_are_refused_for_a_reason(
    record: RecordView,
    key_fault: Option<Seq<char>>,
    fault: Seq<char>,
)
    ensures
        record.secp256k1 is None ==> bootnode_of(record, key_fault) == Err::<
            Bootnode,
            EnrErrorView,
        >(EnrErrorView::MissingKey),
        record.secp256k1 is Some && key_fault == Some(fault) ==> bootnode_of(record, key_fault)
            == Err::<Bootnode, EnrErrorView>(EnrErrorView::BadKey(fault)),
        record.secp256k1 is Some && key_fault is None && record.ip is None && record.ip6 is None
            ==> bootnode_of(record, key_fault) == Err::<Bootnode, EnrErrorView>(
            EnrErrorView::MissingIp,
        ),
        record.secp256k1 is Some && key_fault is None && (record.ip is Some || record.ip6 is Some)
            && (record.tcp_port is None || record.tcp_port == Some(0u16)) && record.udp_port is None
            && quic_port_of(record) is None ==> bootnode_of(record, key_fault) == Err::<
            Bootnode,
            EnrErrorView,
        >(EnrErrorView::NoPort),
        record.secp256k1 is Some && key_fault is None && (record.ip is Some || record.ip6 is Some)
            && (record.udp_port is Some || quic_port_of(record) is Some || (record.tcp_port is Some
            && record.tcp_port != Some(0u16))) ==> bootnode_of(record, key_fault) is Ok,
{
}

/// The address of a record is its version 4 address if it has one, and else its version 6 one.
pub proof fn law_version_4_comes_first(record: RecordView, four: [u8; 4], six: [u8; 16])
    ensures
        record.ip == Some(four) ==> ip_of(record) == Some(IpAddr::V4(four)),
        record.ip is None && record.ip6 == Some(six) ==> ip_of(record) == Some(IpAddr::V6(six)),
        record.ip is None && record.ip6 is None ==> ip_of(record) is None,
{
}

/// The first entry under a key is the one that counts, and there is none where no entry has it.
pub proof fn law_the_first_entry_counts(
    entries: Seq<(Seq<u8>, Seq<u8>)>,
    key: Seq<u8>,
    at: int,
)
    ensures
        0 <= at < entries.len() && entries[at].0 == key && (forall|i: int|
            0 <= i < at ==> (#[trigger] entries[i]).0 != key) ==> entry_of(entries, key) == Some(
            entries[at].1,
        ),
        (forall|i: int| 0 <= i < entries.len() ==> (#[trigger] entries[i]).0 != key) ==> entry_of(
            entries,
            key,
        ) is None,
        quic_key() == seq!['q' as u8, 'u' as u8, 'i' as u8, 'c' as u8],
    decreases entries.len(),
{
    assert(quic_key() =~= seq!['q' as u8, 'u' as u8, 'i' as u8, 'c' as u8]);
    if entries.len() > 0 {
        let rest = entries.skip(1);
        law_the_first_entry_counts(rest, key, at - 1);
        if 0 < at < entries.len() && entries[at].0 == key && (forall|i: int|
            0 <= i < at ==> (#[trigger] entries[i]).0 != key) {
            assert(rest[at - 1] == entries[at]);
            assert forall|i: int| 0 <= i < at - 1 implies (#[trigger] rest[i]).0 != key by {
                assert(rest[i] == entries[i + 1]);
            }
            assert(entries[0].0 != key);
        }
        if forall|i: int| 0 <= i < entries.len() ==> (#[trigger] entries[i]).0 != key {
            assert forall|i: int| 0 <= i < rest.len() implies (#[trigger] rest[i]).0 != key by {
                assert(rest[i] == entries[i + 1]);
            }
            assert(entries[0].0 != key);
        }
    }
}

/// A port is read from the shortest encoding of its number, and from nothing else.
pub proof fn law_ports_are_read_from_their_shortest_encoding(port: u16, item: Seq<u8>)
    ensures
        port == 0 ==> rlp_port(seq![0x80u8]) == Some(port),
        0 < port < 128 ==> rlp_port(seq![port as u8]) == Some(port),
        128 <= port < 256 ==> rlp_port(seq![0x81u8, port as u8]) == Some(port),
        256 <= port ==> rlp_port(seq![0x82u8, (port / 256) as u8, (port % 256) as u8]) == Some(
            port,
        ),
        rlp_port(item) == Some(port) ==> item == (if port == 0 {
            seq![0x80u8]
        } else if port < 128 {
            seq![port as u8]
        } else if port < 256 {
            seq![0x81u8, port as u8]
        } else {
            seq![0x82u8, (port / 256) as u8, (port % 256) as u8]
        }),
{
    if rlp_port(item) == Some(port) {
        let shortest = if port == 0 {
            seq![0x80u8]
        } else if port < 128 {
            seq![port as u8]
        } else if port < 256 {
            seq![0x81u8, port as u8]
        } else {
            seq![0x82u8, (port / 256) as u8, (port % 256) as u8]
        };
        assert(item =~= shortest);
    }
}

/// Port 0 counts as none, and any other port as it is.
pub proof fn law_port_zero_is_no_port(port: u16)
    ensures
        dialable(None) is None,
        dialable(Some(0u16)) is None,
        port != 0 ==> dialable(Some(port)) == Some(port),
{
}

/// A bootnode is dialed at one address for each dial port that it has, and at no other.
pub proof fn law_bootnodes_are_dialed_at_their_ports(bootnode: Bootnode, peer: PeerId)
    ensures
        dial_parts(bootnode, peer).len() == (if bootnode.quic_port is Some {
            1int
        } else {
            0
        }) + (if bootnode.tcp_port is Some {
            1int
        } else {
            0
        }),
{
}

/// A text without the prefix is refused as such, one that does not decode with the decoder's
/// words, and any other is judged by its record and the record's key.
pub proof fn law_texts_are_read_by_prefix_record_and_key(text: Seq<u8>, rest: Seq<u8>)
    ensures
        enr_prefix() == seq!['e' as u8, 'n' as u8, 'r' as u8, ':' as u8],
        text.len() < 4 || text.take(4) != enr_prefix() ==> parsed_enr(text) == Err::<
            Bootnode,
            EnrErrorView,
        >(EnrErrorView::MissingPrefix),
        node_record(base64_bytes(rest)) matches Err(fault) ==> parsed_enr(enr_prefix() + rest)
            == Err::<Bootnode, EnrErrorView>(EnrErrorView::Undecodable(fault)),
        node_record(base64_bytes(rest)) matches Ok(record) ==> (record.secp256k1 matches Some(key)
            ==> parsed_enr(enr_prefix() + rest) == bootnode_of(record, key_fault_of(key@))),
        node_record(base64_bytes(rest)) matches Ok(record) ==> (record.secp256k1 is None
            ==> parsed_enr(enr_prefix() + rest) == Err::<Bootnode, EnrErrorView>(
            EnrErrorView::MissingKey,
        )),
{
    assert(enr_prefix() =~= seq!['e' as u8, 'n' as u8, 'r' as u8, ':' as u8]);
    let whole = enr_prefix() + rest;
    assert(whole.take(4) =~= enr_prefix());
    assert(whole.skip(4) =~= rest);
}

/// A key has a fault exactly if it stands for no peer.
pub proof fn law_keys_without_a_peer_are_faulty(key: Seq<u8>)
    ensures
        key_fault_of(key) is None <==> peer_of_key(key) is Some,
{
}

/// The bootnodes of two lists of texts are those of each, in order; a text that describes one
/// adds just that one.
pub proof fn law_bootnodes_come_in_the_order_of_their_texts(
    a: Seq<String>,
    b: Seq<String>,
    text: String,
    bootnode: Bootnode,
)
    ensures
        usable(a + b) == usable(a) + usable(b),
        parsed_enr(vstd::utf8::encode_utf8(text@)) == Ok::<Bootnode, EnrErrorView>(bootnode)
            ==> usable(seq![text]) == seq![bootnode],
        parsed_enr(vstd::utf8::encode_utf8(text@)) is Err ==> usable(seq![text]).len() == 0,
    decreases b.len(),
{
    assert(seq![text].drop_last() =~= Seq::<String>::empty());
    assert(seq![text].last() == text);
    assert(usable(Seq::<String>::empty()) =~= Seq::<Bootnode>::empty());
    if parsed_enr(vstd::utf8::encode_utf8(text@)) == Ok::<Bootnode, EnrErrorView>(bootnode) {
        assert(usable(seq![text]) =~= seq![bootnode]);
    }
    if b.len() == 0 {
        assert(a + b =~= a);
        assert(usable(a) + usable(b) =~= usable(a));
    } else {
        law_bootnodes_come_in_the_order_of_their_texts(a, b.drop_last(), text, bootnode);
        assert((a + b).drop_last() =~= a + b.drop_last());
        assert((a + b).last() == b.last());
        assert(usable(a + b) =~= usable(a) + usable(b));
    }
}

/// A discovery seed has the address, the discovery port and the key of its bootnode, and its TCP
/// port, or 0 where it has none.
pub proof fn law_seeds_are_as_their_bootnodes(
    bootnode: Bootnode,
    key: Seq<u8>,
    node: DiscoveryNode,
    i: int,
)
    requires
        discovery_node_of(bootnode, Some(key), node),
    ensures
        bootnode.udp_port == Some(node.udp_port),
        node.ip == bootnode.ip,
        bootnode.tcp_port is None ==> node.tcp_port == 0,
        bootnode.tcp_port is Some ==> bootnode.tcp_port == Some(node.tcp_port),
        key.len() == 65,
        0 <= i < 64 ==> node.public_key@[i] == key[i + 1],
{
}

// Dialing at startup.

/// How the bootnodes of two lists are dialed is how those of each are, in order; a single one is
/// dialed exactly if it has a port to dial and is not the node itself, at all its addresses.
pub proof fn law_every_other_bootnode_is_dialed(
    a: Seq<Bootnode>,
    b: Seq<Bootnode>,
    bootnode: Bootnode,
    local: PeerId,
    peer: PeerId,
)
    ensures
        dials_of(a + b, local) == dials_of(a, local) + dials_of(b, local),
        peer_of_key(bootnode.public_key@) == Some(peer) && peer != local && (bootnode.quic_port
            is Some || bootnode.tcp_port is Some) ==> dials_of(seq![bootnode], local) == seq![
            (peer, dial_parts(bootnode, peer)),
        ],
        peer_of_key(bootnode.public_key@) == Some(local) ==> dials_of(seq![bootnode], local).len()
            == 0,
        bootnode.quic_port is None && bootnode.tcp_port is None ==> dials_of(
            seq![bootnode],
            local,
        ).len() == 0,
        dial_of(bootnode, None, local) is None,
    decreases b.len(),
{
    let one = seq![bootnode];
    assert(one.drop_last() =~= Seq::<Bootnode>::empty());
    assert(one.last() == bootnode);
    assert(dials_of(Seq::<Bootnode>::empty(), local) =~= Seq::empty());
    if peer_of_key(bootnode.public_key@) == Some(peer) && peer != local && (bootnode.quic_port
        is Some || bootnode.tcp_port is Some) {
        assert(dial_parts(bootnode, peer).len() > 0);
        assert(dials_of(one, local) =~= seq![(peer, dial_parts(bootnode, peer))]);
    }
    if b.len() == 0 {
        assert(a + b =~= a);
        assert(dials_of(a, local) + dials_of(b, local) =~= dials_of(a, local));
    } else {
        law_every_other_bootnode_is_dialed(a, b.drop_last(), bootnode, local, peer);
        assert((a + b).drop_last() =~= a + b.drop_last());
        assert((a + b).last() == b.last());
        assert(dials_of(a + b, local) =~= dials_of(a, local) + dials_of(b, local));
    }
}

// Subnets.

/// A node subscribes to a subnet exactly if one of its validators votes there, or it aggregates
/// and was told to, or it aggregates, has nothing else to subscribe to, and the subnet is 0.
pub proof fn law_subscriptions_are_exact(
    ids: Seq<u64>,
    committees: int,
    extra: Seq<u64>,
    subnet: u64,
)
    requires
        0 < committees <= u64::MAX,
    ensures
        ({
            let own = exists|i: int|
                0 <= i < ids.len() && (#[trigger] ids[i]) as int % committees == subnet;
            &&& subscription(ids, committees, false, Some(extra)).contains(subnet) <==> own
            &&& subscription(ids, committees, false, None).contains(subnet) <==> own
            &&& ids.len() > 0 || extra.len() > 0 ==> (subscription(
                ids,
                committees,
                true,
                Some(extra),
            ).contains(subnet) <==> own || extra.contains(subnet))
            &&& ids.len() > 0 ==> (subscription(ids, committees, true, None).contains(subnet)
                <==> own)
            &&& ids.len() == 0 && extra.len() == 0 ==> (subscription(
                ids,
                committees,
                true,
                Some(extra),
            ).contains(subnet) <==> subnet == 0)
            &&& ids.len() == 0 ==> (subscription(ids, committees, true, None).contains(subnet)
                <==> subnet == 0)
        }),
{
    let own = own_subnets(ids, committees);
    if ids.len() > 0 {
        vstd::arithmetic::div_mod::lemma_mod_bound(ids[0] as int, committees);
        let first = (ids[0] as int % committees) as u64;
        assert(own.contains(first));
        assert(own.union(extra.to_set()).contains(first));
        assert(own != Set::<u64>::empty());
        assert(own.union(extra.to_set()) != Set::<u64>::empty());
    } else {
        assert(own =~= Set::<u64>::empty());
        if extra.len() > 0 {
            assert(own.union(extra.to_set()).contains(extra[0]));
            assert(own.union(extra.to_set()) != Set::<u64>::empty());
        } else {
            assert(own.union(extra.to_set()) =~= Set::<u64>::empty());
        }
    }
}

// Names.

/// One more entry names the peer of its key, in place of an earlier name of that peer's, and
/// nobody else; an entry whose key is none names nobody.
pub proof fn law_the_latest_name_stands(
    entries: Seq<(String, H256)>,
    entry: (String, H256),
    peer: PeerId,
    other: PeerId,
)
    ensures
        peer_of_secret(entry.1.0@) == Some(peer) ==> names_by_peer(entries.push(entry)).contains_pair(
            peer,
            entry.0@,
        ),
        peer_of_secret(entry.1.0@) != Some(other) ==> names_by_peer(
            entries.push(entry),
        ).contains_key(other) == names_by_peer(entries).contains_key(other),
        peer_of_secret(entry.1.0@) != Some(other) && names_by_peer(entries).contains_key(other)
            ==> names_by_peer(entries.push(entry))[other] == names_by_peer(entries)[other],
        names_by_peer(Seq::empty()) == Map::<PeerId, Seq<char>>::empty(),
{
    assert(entries.push(entry).drop_last() =~= entries);
}

/// A secret key stands for the peer of its public key, and bytes that are none for nobody.
pub proof fn law_secrets_stand_for_their_public_keys(secret: Seq<u8>, key: Seq<u8>)
    ensures
        public_key_of(secret) == Some(key) ==> peer_of_secret(secret) == peer_of_key(key),
        public_key_of(secret) is None ==> peer_of_secret(secret) is None,
{
}

// Addresses.

/// A QUIC address leads over the IP address and a UDP port to QUIC, a TCP address over the IP
/// address to a TCP port.
pub proof fn law_addresses_lead_to_their_sockets(ip: IpAddr, port: u16)
    ensures
        quic_parts(ip, port).len() == 3,
        quic_parts(ip, port)[0] == ip_hop(ip),
        quic_parts(ip, port)[1] == AddrPart::Hop(Hop::Udp(port)),
        quic_parts(ip, port)[2] == AddrPart::Hop(Hop::QuicV1),
        tcp_parts(ip, port).len() == 2,
        tcp_parts(ip, port)[0] == ip_hop(ip),
        tcp_parts(ip, port)[1] == AddrPart::Hop(Hop::Tcp(port)),
        ip matches IpAddr::V4(octets) ==> ip_hop(ip) == AddrPart::Hop(Hop::Ip4(octets)),
        ip matches IpAddr::V6(octets) ==> ip_hop(ip) == AddrPart::Hop(Hop::Ip6(octets)),
{
}

/// The transport of an address is that of its first part that is QUIC or TCP, and unknown where no
/// part is either.
pub proof fn law_the_first_transport_counts(parts: Seq<AddrPart>, at: int)
    ensures
        0 <= at < parts.len() && (forall|i: int|
            0 <= i < at ==> part_transport(#[trigger] parts[i]) == Transport::Unknown)
            && part_transport(parts[at]) != Transport::Unknown ==> first_transport(parts)
            == part_transport(parts[at]),
        (forall|i: int|
            0 <= i < parts.len() ==> part_transport(#[trigger] parts[i]) == Transport::Unknown)
            ==> first_transport(parts) == Transport::Unknown,
    decreases parts.len(),
{
    if parts.len() > 0 {
        let rest = parts.skip(1);
        law_the_first_transport_counts(rest, at - 1);
        if 0 < at < parts.len() && (forall|i: int|
            0 <= i < at ==> part_transport(#[trigger] parts[i]) == Transport::Unknown) {
            assert(part_transport(parts[0]) == Transport::Unknown);
            assert(rest[at - 1] == parts[at]);
            assert forall|i: int| 0 <= i < at - 1 implies part_transport(#[trigger] rest[i])
                == Transport::Unknown by {
                assert(rest[i] == parts[i + 1]);
            }
        }
        if forall|i: int|
            0 <= i < parts.len() ==> part_transport(#[trigger] parts[i]) == Transport::Unknown {
            assert(part_transport(parts[0]) == Transport::Unknown);
            assert forall|i: int| 0 <= i < rest.len() implies part_transport(#[trigger] rest[i])
                == Transport::Unknown by {
                assert(rest[i] == parts[i + 1]);
            }
        }
    }
}

/// QUIC in either form is QUIC, a TCP port is TCP, and nothing else names a transport.
pub proof fn law_what_names_a_transport(
    port: u16,
    peer: PeerId,
    four: [u8; 4],
    six: [u8; 16],
)
    ensures
        part_transport(AddrPart::Hop(Hop::Quic)) == Transport::Quic,
        part_transport(AddrPart::Hop(Hop::QuicV1)) == Transport::Quic,
        part_transport(AddrPart::Hop(Hop::Tcp(port))) == Transport::Tcp,
        part_transport(AddrPart::Hop(Hop::Udp(port))) == Transport::Unknown,
        part_transport(AddrPart::Hop(Hop::Ip4(four))) == Transport::Unknown,
        part_transport(AddrPart::Hop(Hop::Ip6(six))) == Transport::Unknown,
        part_transport(AddrPart::P2p(peer)) == Transport::Unknown,
        part_transport(AddrPart::Other) == Transport::Unknown,
{
}

// Message ids.

/// What is hashed for a message: one byte that says whether it could be decompressed and three
/// zero bytes, the length of the topic in eight bytes, the least first, the topic, and the data,
/// decompressed if it could be.
pub proof fn law_what_is_hashed_for_a_message(
    topic: Seq<u8>,
    data: Seq<u8>,
    plain: Seq<u8>,
    i: int,
)
    requires
        topic.len() <= u64::MAX,
    ensures
        ({
            let good = message_preimage(topic, data, Some(plain));
            let bad = message_preimage(topic, data, None);
            &&& good.len() == 12 + topic.len() + plain.len()
            &&& bad.len() == 12 + topic.len() + data.len()
            &&& good[0] == 1 && bad[0] == 0
            &&& 1 <= i < 4 ==> good[i] == 0 && bad[i] == 0
            &&& good.subrange(4, 12) == vstd::bytes::spec_u64_to_le_bytes(topic.len() as u64)
            &&& bad.subrange(4, 12) == good.subrange(4, 12)
            &&& 0 <= i < topic.len() ==> good[12 + i] == topic[i] && bad[12 + i] == topic[i]
            &&& 0 <= i < plain.len() ==> good[12 + topic.len() + i] == plain[i]
            &&& 0 <= i < data.len() ==> bad[12 + topic.len() + i] == data[i]
        }),
{
    vstd::bytes::lemma_auto_spec_u64_to_from_le_bytes();
    let good = message_preimage(topic, data, Some(plain));
    let bad = message_preimage(topic, data, None);
    let len = vstd::bytes::spec_u64_to_le_bytes(topic.len() as u64);
    assert(len.len() == 8);
    assert(good.subrange(4, 12) =~= len);
    assert(bad.subrange(4, 12) =~= len);
}

/// An id is the first twenty bytes of a hash.
pub proof fn law_ids_are_the_first_twenty_bytes(hash: Seq<u8>, i: int)
    requires
        hash.len() >= 20,
    ensures
        message_id_of(hash).len() == 20,
        0 <= i < 20 ==> message_id_of(hash)[i] == hash[i],
{
}

} // verus!
