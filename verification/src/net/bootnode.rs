//! Bootnodes, read from their node records.
use crate::net::address::{
    addr_parts, at_peer, quic_addr, quic_parts, tcp_addr, tcp_parts, AddrPart, IpAddr,
};
use crate::net::identity::{
    key_fault, key_fault_of, peer_of_key, uncompress_key, uncompressed_key,
};
use crate::primitives::PeerId;
use ethrex_p2p::types::NodeRecord;
use ethrex_rlp::decode::RLPDecode;
use libp2p::Multiaddr;
use vstd::prelude::*;
use vstd::string::{StringExecFns, StringSliceAdditionalSpecFns};

verus! {

/// A node that is known from the start.
#[derive(Clone, Copy, Debug)]
pub struct Bootnode {
    /// Its IP address.
    pub ip: IpAddr,
    /// Its QUIC port, if its record has one.
    pub quic_port: Option<u16>,
    /// Its TCP port, if its record has one.
    pub tcp_port: Option<u16>,
    /// Its discovery port, if its record has one. Without one it can be dialed, but it cannot
    /// seed discovery.
    pub udp_port: Option<u16>,
    /// Its compressed public key.
    pub public_key: [u8; 33],
}

/// A bootnode as discovery knows it.
#[derive(Clone, Copy, Debug)]
pub struct DiscoveryNode {
    /// Its IP address.
    pub ip: IpAddr,
    /// Its discovery port.
    pub udp_port: u16,
    /// Its TCP port; 0 if it has none.
    pub tcp_port: u16,
    /// Its uncompressed public key, without the leading tag.
    pub public_key: [u8; 64],
}

/// The entries of a node record.
#[derive(Debug)]
pub struct RecordPairs {
    /// The `ip` entry.
    pub ip: Option<[u8; 4]>,
    /// The `ip6` entry.
    pub ip6: Option<[u8; 16]>,
    /// The `tcp` entry.
    pub tcp_port: Option<u16>,
    /// The `udp` entry.
    pub udp_port: Option<u16>,
    /// The `secp256k1` entry.
    pub secp256k1: Option<[u8; 33]>,
    /// The entries under other keys, each with its encoded value.
    pub other: Vec<(Vec<u8>, Vec<u8>)>,
}

/// The entries of a node record, as contracts speak of them.
pub struct RecordView {
    /// The `ip` entry.
    pub ip: Option<[u8; 4]>,
    /// The `ip6` entry.
    pub ip6: Option<[u8; 16]>,
    /// The `tcp` entry.
    pub tcp_port: Option<u16>,
    /// The `udp` entry.
    pub udp_port: Option<u16>,
    /// The `secp256k1` entry.
    pub secp256k1: Option<[u8; 33]>,
    /// The entries under other keys, each with its encoded value.
    pub other: Seq<(Seq<u8>, Seq<u8>)>,
}

impl View for RecordPairs {
    type V = RecordView;

    open spec fn view(&self) -> RecordView {
        RecordView {
            ip: self.ip,
            ip6: self.ip6,
            tcp_port: self.tcp_port,
            udp_port: self.udp_port,
            secp256k1: self.secp256k1,
            other: self.other@.map_values(|e: (Vec<u8>, Vec<u8>)| (e.0@, e.1@)),
        }
    }
}

/// Why a record is of no use.
#[derive(Debug)]
pub enum EnrError {
    /// The text does not start with `enr:`.
    MissingPrefix,
    /// The text does not decode to a record, and what the decoder says of it.
    Undecodable(String),
    /// The record has no public key.
    MissingKey,
    /// The record's public key is none, and what the decoder says of it.
    BadKey(String),
    /// The record has no IP address.
    MissingIp,
    /// The record has no port to reach the node at.
    NoPort,
}

/// Why a record is of no use, as contracts speak of it.
pub enum EnrErrorView {
    /// The text does not start with `enr:`.
    MissingPrefix,
    /// The text does not decode to a record, and what the decoder says of it.
    Undecodable(Seq<char>),
    /// The record has no public key.
    MissingKey,
    /// The record's public key is none, and what the decoder says of it.
    BadKey(Seq<char>),
    /// The record has no IP address.
    MissingIp,
    /// The record has no port to reach the node at.
    NoPort,
}

impl View for EnrError {
    type V = EnrErrorView;

    open spec fn view(&self) -> EnrErrorView {
        match self {
            EnrError::MissingPrefix => EnrErrorView::MissingPrefix,
            EnrError::Undecodable(detail) => EnrErrorView::Undecodable(detail@),
            EnrError::MissingKey => EnrErrorView::MissingKey,
            EnrError::BadKey(detail) => EnrErrorView::BadKey(detail@),
            EnrError::MissingIp => EnrErrorView::MissingIp,
            EnrError::NoPort => EnrErrorView::NoPort,
        }
    }
}

impl EnrError {
    /// The reason in words.
    pub fn reason(&self) -> (res: String)
        ensures
            res@ == (match self@ {
                EnrErrorView::MissingPrefix => "missing enr: prefix"@,
                EnrErrorView::Undecodable(detail) => "RLP decode failed: "@ + detail,
                EnrErrorView::MissingKey => "node record missing public key"@,
                EnrErrorView::BadKey(detail) => "bad secp256k1 key: "@ + detail,
                EnrErrorView::MissingIp => "node record missing IP address"@,
                EnrErrorView::NoPort => "node advertises neither a quic, a tcp, nor a udp port"@,
            }),
    {
        match self {
            EnrError::MissingPrefix => "missing enr: prefix".to_string(),
            EnrError::Undecodable(detail) => "RLP decode failed: ".to_string().concat(
                detail.as_str(),
            ),
            EnrError::MissingKey => "node record missing public key".to_string(),
            EnrError::BadKey(detail) => "bad secp256k1 key: ".to_string().concat(detail.as_str()),
            EnrError::MissingIp => "node record missing IP address".to_string(),
            EnrError::NoPort => "node advertises neither a quic, a tcp, nor a udp port".to_string(),
        }
    }
}

/// The bytes that a base64 text stands for.
pub uninterp spec fn base64_bytes(text: Seq<u8>) -> Seq<u8>;

/// `ethrex_common::base64::decode`: the bytes that a base64 text stands for, in the URL-safe
/// alphabet and with padding optional.
#[verifier::external_body]
fn base64_decode(text: &[u8]) -> (res: Vec<u8>)
    ensures
        res@ == base64_bytes(text@),
{
    ethrex_common::base64::decode(text)
}

/// The node record that an encoding stands for, or the text of the decoder's error if it stands
/// for none.
pub uninterp spec fn node_record(encoded: Seq<u8>) -> Result<RecordView, Seq<char>>;

/// `NodeRecord::decode` of the `ethrex-p2p` crate, and the entries of the record; the text of the
/// error where the bytes encode no record. That text may name a Rust type, as the compiler spells
/// it.
#[verifier::external_body]
fn decode_record(encoded: &[u8]) -> (res: Result<RecordPairs, String>)
    ensures
        match res {
            Ok(pairs) => node_record(encoded@) == Ok::<RecordView, Seq<char>>(pairs@),
            Err(text) => node_record(encoded@) == Err::<RecordView, Seq<char>>(text@),
        },
{
    let record = NodeRecord::decode(encoded).map_err(|err| err.to_string())?;
    let pairs = record.pairs();
    Ok(RecordPairs {
        ip: pairs.ip.map(|ip| ip.octets()),
        ip6: pairs.ip6.map(|ip| ip.octets()),
        tcp_port: pairs.tcp_port,
        udp_port: pairs.udp_port,
        secp256k1: pairs.secp256k1.map(|key| key.0),
        other: pairs.other.iter().map(|(k, v)| (k.to_vec(), v.to_vec())).collect(),
    })
}

/// The port that an RLP item stands for: the shortest encoding of a number below 2^16.
pub open spec fn rlp_port(item: Seq<u8>) -> Option<u16> {
    if item.len() == 1 && 0 < item[0] < 0x80 {
        Some(item[0] as u16)
    } else if item.len() == 1 && item[0] == 0x80 {
        Some(0)
    } else if item.len() == 2 && item[0] == 0x81 && item[1] >= 0x80 {
        Some(item[1] as u16)
    } else if item.len() == 3 && item[0] == 0x82 && item[1] > 0 {
        Some((item[1] * 256 + item[2]) as u16)
    } else {
        None
    }
}

/// `u16::decode` of the `ethrex-rlp` crate: the number that an RLP item stands for. An item that
/// is a list, is too long, or is not the shortest encoding of its number is refused.
#[verifier::external_body]
fn decode_port(item: &[u8]) -> (res: Option<u16>)
    ensures
        res == rlp_port(item@),
{
    u16::decode(item).ok()
}

/// The key of the entry that holds a node's QUIC port.
pub open spec fn quic_key() -> Seq<u8> {
    seq![0x71u8, 0x75u8, 0x69u8, 0x63u8]
}

/// The encoded value of the first entry under `key`, if there is one.
pub open spec fn entry_of(entries: Seq<(Seq<u8>, Seq<u8>)>, key: Seq<u8>) -> Option<Seq<u8>>
    decreases entries.len(),
{
    if entries.len() == 0 {
        None
    } else if entries[0].0 == key {
        Some(entries[0].1)
    } else {
        entry_of(entries.skip(1), key)
    }
}

/// A port, unless it is 0: nothing can be dialed there.
pub open spec fn dialable(port: Option<u16>) -> Option<u16> {
    if port == Some(0u16) {
        None
    } else {
        port
    }
}

/// The QUIC port of a record, if it has one that can be dialed.
pub open spec fn quic_port_of(record: RecordView) -> Option<u16> {
    match entry_of(record.other, quic_key()) {
        Some(item) => dialable(rlp_port(item)),
        None => None,
    }
}

/// The IP address of a record, version 4 first.
pub open spec fn ip_of(record: RecordView) -> Option<IpAddr> {
    match record.ip {
        Some(octets) => Some(IpAddr::V4(octets)),
        None => match record.ip6 {
            Some(octets) => Some(IpAddr::V6(octets)),
            None => None,
        },
    }
}

/// The bootnode that a record describes; `key_fault` is the fault of the record's public key,
/// where it has one that is none.
pub open spec fn bootnode_of(record: RecordView, key_fault: Option<Seq<char>>) -> Result<
    Bootnode,
    EnrErrorView,
> {
    match (record.secp256k1, key_fault, ip_of(record)) {
        (None, _, _) => Err(EnrErrorView::MissingKey),
        (Some(_), Some(fault), _) => Err(EnrErrorView::BadKey(fault)),
        (Some(_), None, None) => Err(EnrErrorView::MissingIp),
        (Some(public_key), None, Some(ip)) => if quic_port_of(record) is None && dialable(
            record.tcp_port,
        ) is None && record.udp_port is None {
            Err(EnrErrorView::NoPort)
        } else {
            Ok(
                Bootnode {
                    ip,
                    quic_port: quic_port_of(record),
                    tcp_port: dialable(record.tcp_port),
                    udp_port: record.udp_port,
                    public_key,
                },
            )
        },
    }
}

/// The fault of the public key of a record, if it has one that is none.
pub open spec fn record_key_fault(record: RecordView) -> Option<Seq<char>> {
    match record.secp256k1 {
        Some(key) => key_fault_of(key@),
        None => None,
    }
}

/// What reading a record came to, as contracts speak of it.
pub open spec fn outcome_view(outcome: Result<Bootnode, EnrError>) -> Result<
    Bootnode,
    EnrErrorView,
> {
    match outcome {
        Ok(bootnode) => Ok(bootnode),
        Err(error) => Err(error@),
    }
}

/// The bytes of `enr:`.
pub open spec fn enr_prefix() -> Seq<u8> {
    seq![0x65u8, 0x6eu8, 0x72u8, 0x3au8]
}

/// The bootnode that the bytes of a text describe.
pub open spec fn parsed_enr(text: Seq<u8>) -> Result<Bootnode, EnrErrorView> {
    if text.len() < 4 || text.take(4) != enr_prefix() {
        Err(EnrErrorView::MissingPrefix)
    } else {
        match node_record(base64_bytes(text.skip(4))) {
            Err(fault) => Err(EnrErrorView::Undecodable(fault)),
            Ok(record) => bootnode_of(record, record_key_fault(record)),
        }
    }
}

/// Whether a byte string is the key of the entry that holds a node's QUIC port.
fn is_quic_key(key: &Vec<u8>) -> (res: bool)
    ensures
        res == (key@ == quic_key()),
{
    let res = key.len() == 4 && key[0] == 0x71 && key[1] == 0x75 && key[2] == 0x69 && key[3]
        == 0x63;
    assert(res ==> key@ =~= quic_key());
    res
}

/// A port, unless it is 0.
fn nonzero(port: Option<u16>) -> (res: Option<u16>)
    ensures
        res == dialable(port),
{
    match port {
        Some(p) => if p == 0 {
            None
        } else {
            Some(p)
        },
        None => None,
    }
}

/// The QUIC port of a record, if it has one that can be dialed.
fn quic_port(record: &RecordPairs) -> (res: Option<u16>)
    ensures
        res == quic_port_of(record@),
{
    let entries = &record.other;
    let ghost all = record@.other;
    let mut i: usize = 0;
    assert(all.skip(0) =~= all);
    while i < entries.len()
        invariant
            i <= entries@.len(),
            all == record@.other,
            all.len() == entries@.len(),
            entries@ == record.other@,
            entry_of(all, quic_key()) == entry_of(all.skip(i as int), quic_key()),
        decreases entries@.len() - i,
    {
        proof {
            assert(all.skip(i as int)[0] == (entries@[i as int].0@, entries@[i as int].1@));
            assert(all.skip(i as int).skip(1) =~= all.skip(i + 1));
        }
        if is_quic_key(&entries[i].0) {
            return nonzero(decode_port(&entries[i].1));
        }
        i = i + 1;
    }
    None
}

/// The bootnode that a record describes; `key_fault` is the fault of the record's public key,
/// where it has one that is none. A record needs a public key, an IP address, and a port of some
/// kind: a node with a discovery port alone cannot be dialed, but it can seed discovery.
pub fn bootnode_from_record(record: &RecordPairs, key_fault: Option<String>) -> (res: Result<
    Bootnode,
    EnrError,
>)
    ensures
        outcome_view(res) == bootnode_of(
            record@,
            match key_fault {
                Some(text) => Some(text@),
                None => None,
            },
        ),
{
    let quic = quic_port(record);
    let tcp = nonzero(record.tcp_port);
    let public_key: [u8; 33] = match record.secp256k1 {
        None => {
            return Err(EnrError::MissingKey);
        },
        Some(key) => key,
    };
    if let Some(text) = key_fault {
        return Err(EnrError::BadKey(text));
    }
    let ip = match record.ip {
        Some(octets) => IpAddr::V4(octets),
        None => match record.ip6 {
            Some(octets) => IpAddr::V6(octets),
            None => {
                return Err(EnrError::MissingIp);
            },
        },
    };
    if quic.is_none() && tcp.is_none() && record.udp_port.is_none() {
        return Err(EnrError::NoPort);
    }
    Ok(Bootnode { ip, quic_port: quic, tcp_port: tcp, udp_port: record.udp_port, public_key })
}

/// The bootnode that a text describes.
pub fn parse_enr(enr: &str) -> (res: Result<Bootnode, EnrError>)
    ensures
        outcome_view(res) == parsed_enr(enr.spec_bytes()),
{
    let text = enr.as_bytes();
    let prefixed = text.len() >= 4 && text[0] == 0x65 && text[1] == 0x6e && text[2] == 0x72
        && text[3] == 0x3a;
    proof {
        if prefixed {
            assert(text@.take(4) =~= enr_prefix());
        } else if text@.len() >= 4 && text@.take(4) == enr_prefix() {
            assert(text@[0] == text@.take(4)[0]);
            assert(text@[1] == text@.take(4)[1]);
            assert(text@[2] == text@.take(4)[2]);
            assert(text@[3] == text@.take(4)[3]);
        }
    }
    if !prefixed {
        return Err(EnrError::MissingPrefix);
    }
    let stripped = vstd::slice::slice_subrange(text, 4, text.len());
    assert(stripped@ =~= text@.skip(4));
    let decoded = base64_decode(stripped);
    match decode_record(&decoded) {
        Err(text) => Err(EnrError::Undecodable(text)),
        Ok(record) => {
            let key_fault = match &record.secp256k1 {
                Some(key) => key_fault(key),
                None => None,
            };
            bootnode_from_record(&record, key_fault)
        },
    }
}

/// The bootnodes of those texts that describe one.
pub open spec fn usable(enrs: Seq<String>) -> Seq<Bootnode>
    decreases enrs.len(),
{
    if enrs.len() == 0 {
        Seq::empty()
    } else {
        match parsed_enr(vstd::utf8::encode_utf8(enrs.last()@)) {
            Ok(bootnode) => usable(enrs.drop_last()).push(bootnode),
            Err(_) => usable(enrs.drop_last()),
        }
    }
}

/// The bootnodes of those texts that describe one, in order. A text that describes none does
/// not keep the others from being used.
pub fn parse_enrs(enrs: Vec<String>) -> (res: Vec<Bootnode>)
    ensures
        res@ == usable(enrs@),
{
    let mut bootnodes: Vec<Bootnode> = Vec::new();
    let mut i: usize = 0;
    while i < enrs.len()
        invariant
            i <= enrs@.len(),
            bootnodes@ == usable(enrs@.take(i as int)),
        decreases enrs@.len() - i,
    {
        proof {
            assert(enrs@.take(i + 1).drop_last() =~= enrs@.take(i as int));
            assert(enrs@.take(i + 1).last() == enrs@[i as int]);
        }
        match parse_enr(enrs[i].as_str()) {
            Ok(bootnode) => {
                bootnodes.push(bootnode);
            },
            Err(_) => {},
        }
        i = i + 1;
    }
    assert(enrs@.take(i as int) =~= enrs@);
    bootnodes
}

/// The parts of the addresses to dial a bootnode at, QUIC first.
pub open spec fn dial_parts(bootnode: Bootnode, peer: PeerId) -> Seq<Seq<AddrPart>> {
    let quic = match bootnode.quic_port {
        Some(port) => seq![quic_parts(bootnode.ip, port).push(AddrPart::P2p(peer))],
        None => Seq::empty(),
    };
    let tcp = match bootnode.tcp_port {
        Some(port) => seq![tcp_parts(bootnode.ip, port).push(AddrPart::P2p(peer))],
        None => Seq::empty(),
    };
    quic + tcp
}

/// The parts of each address of a list.
pub open spec fn all_parts(addrs: Seq<Multiaddr>) -> Seq<Seq<AddrPart>> {
    addrs.map_values(|a: Multiaddr| addr_parts(a))
}

/// The addresses to dial a bootnode at, QUIC first then TCP, for the ports that it has. There is
/// none for a bootnode that has neither: such a one only seeds discovery.
pub fn bootnode_dial_addrs(bootnode: &Bootnode, peer_id: PeerId) -> (res: Vec<Multiaddr>)
    requires
        peer_id.valid(),
    ensures
        all_parts(res@) == dial_parts(*bootnode, peer_id),
{
    let mut addrs: Vec<Multiaddr> = Vec::new();
    match bootnode.quic_port {
        Some(port) => {
            addrs.push(at_peer(quic_addr(bootnode.ip, port), &peer_id));
        },
        None => {},
    }
    match bootnode.tcp_port {
        Some(port) => {
            addrs.push(at_peer(tcp_addr(bootnode.ip, port), &peer_id));
        },
        None => {},
    }
    assert(all_parts(addrs@) =~= dial_parts(*bootnode, peer_id));
    addrs
}

/// The bootnode as discovery knows it, given the uncompressed form of its key.
pub open spec fn discovery_node_of(bootnode: Bootnode, key: Option<Seq<u8>>, node: DiscoveryNode)
    -> bool {
    &&& bootnode.udp_port == Some(node.udp_port)
    &&& node.ip == bootnode.ip
    &&& node.tcp_port == (match bootnode.tcp_port {
        Some(port) => port,
        None => 0,
    })
    &&& key matches Some(bytes) && bytes.len() == 65 && node.public_key@ == bytes.skip(1)
}

impl Bootnode {
    /// The bootnode as discovery knows it, given the uncompressed form of its key; `None` if it
    /// has no discovery port.
    pub fn discovery_node(&self, key: &[u8; 65]) -> (res: Option<DiscoveryNode>)
        ensures
            match res {
                Some(node) => discovery_node_of(*self, Some(key@), node),
                None => self.udp_port is None,
            },
    {
        let udp_port: u16 = match self.udp_port {
            Some(port) => port,
            None => {
                return None;
            },
        };
        let tcp_port: u16 = match self.tcp_port {
            Some(port) => port,
            None => 0,
        };
        let mut public_key: [u8; 64] = [0u8; 64];
        let mut i: usize = 0;
        while i < 64
            invariant
                i <= 64,
                forall|j: int| 0 <= j < i ==> public_key@[j] == key@[j + 1],
            decreases 64 - i,
        {
            public_key[i] = key[i + 1];
            i = i + 1;
        }
        assert(public_key@ =~= key@.skip(1));
        Some(DiscoveryNode { ip: self.ip, udp_port, tcp_port, public_key })
    }

    /// The bootnode as discovery knows it; `None` if it has no discovery port, or if its public
    /// key is none.
    pub fn as_discovery_node(&self) -> (res: Option<DiscoveryNode>)
        ensures
            match res {
                Some(node) => discovery_node_of(*self, uncompressed_key(self.public_key@), node),
                None => self.udp_port is None || uncompressed_key(self.public_key@) is None,
            },
            res is Some <==> self.udp_port is Some && peer_of_key(self.public_key@) is Some,
    {
        if self.udp_port.is_none() {
            return None;
        }
        match uncompress_key(&self.public_key) {
            Some(key) => self.discovery_node(&key),
            None => None,
        }
    }
}

/// A record that describes a bootnode has a way to reach it: it can be dialed, or it can seed
/// discovery.
pub proof fn law_bootnodes_can_be_reached(
    record: RecordView,
    key_fault: Option<Seq<char>>,
    peer: PeerId,
)
    ensures
        bootnode_of(record, key_fault) matches Ok(bootnode) ==> bootnode.udp_port is Some
            || dial_parts(bootnode, peer).len() > 0,
{
}

/// A bootnode that was read from a text has a public key that stands for a peer: with a discovery
/// port it seeds discovery, and with a dial port it is dialed.
pub proof fn law_bootnodes_have_valid_keys(text: Seq<u8>)
    ensures
        parsed_enr(text) matches Ok(bootnode) ==> peer_of_key(bootnode.public_key@) is Some,
{
}

/// No bootnode has a dial port of 0.
pub proof fn law_no_bootnode_is_dialed_at_port_zero(
    record: RecordView,
    key_fault: Option<Seq<char>>,
)
    ensures
        bootnode_of(record, key_fault) matches Ok(bootnode) ==> bootnode.quic_port != Some(0u16)
            && bootnode.tcp_port != Some(0u16),
{
}

/// A text that describes no bootnode leaves the bootnodes of the other texts as they are.
pub proof fn law_unusable_texts_do_not_matter(before: Seq<String>, bad: String, after: Seq<String>)
    requires
        parsed_enr(vstd::utf8::encode_utf8(bad@)) is Err,
    ensures
        usable(before.push(bad) + after) == usable(before + after),
    decreases after.len(),
{
    if after.len() == 0 {
        assert(before.push(bad) + after =~= before.push(bad));
        assert(before.push(bad).drop_last() =~= before);
        assert(before + after =~= before);
    } else {
        law_unusable_texts_do_not_matter(before, bad, after.drop_last());
        assert((before.push(bad) + after).drop_last() =~= before.push(bad) + after.drop_last());
        assert((before + after).drop_last() =~= before + after.drop_last());
    }
}

} // verus!
