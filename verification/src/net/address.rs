//! Network addresses: where to listen, and where to reach a peer.
use crate::primitives::PeerId;
use libp2p::multiaddr::Protocol;
use libp2p::multihash::Multihash;
use libp2p::Multiaddr;
use vstd::prelude::*;

verus! {

/// An IP address.
#[derive(Clone, Copy, Debug)]
pub enum IpAddr {
    /// Version 4.
    V4([u8; 4]),
    /// Version 6.
    V6([u8; 16]),
}

/// A part of an address that leads one step further.
#[derive(Clone, Copy, Debug)]
pub enum Hop {
    /// An IP address, version 4.
    Ip4([u8; 4]),
    /// An IP address, version 6.
    Ip6([u8; 16]),
    /// A UDP port.
    Udp(u16),
    /// A TCP port.
    Tcp(u16),
    /// QUIC, in its draft.
    Quic,
    /// QUIC.
    QuicV1,
}

/// A part of an address.
#[derive(Clone, Copy, Debug)]
pub enum AddrPart {
    /// A step further.
    Hop(Hop),
    /// The peer that is to be found there.
    P2p(PeerId),
    /// Anything else.
    Other,
}

/// A `Multiaddr` of the `libp2p` crate: an address as a list of parts.
#[verifier::external_type_specification]
#[verifier::external_body]
pub struct ExMultiaddr(libp2p::Multiaddr);

/// The parts of an address, in order.
pub uninterp spec fn addr_parts(addr: libp2p::Multiaddr) -> Seq<AddrPart>;

/// `Multiaddr::empty`: an address without parts.
#[verifier::external_body]
fn empty_addr() -> (res: Multiaddr)
    ensures
        addr_parts(res) == Seq::<AddrPart>::empty(),
{
    Multiaddr::empty()
}

/// `Multiaddr::with`: the address with one more part at its end.
#[verifier::external_body]
fn addr_with(addr: Multiaddr, hop: Hop) -> (res: Multiaddr)
    ensures
        addr_parts(res) == addr_parts(addr).push(AddrPart::Hop(hop)),
{
    addr.with(match hop {
        Hop::Ip4(octets) => Protocol::Ip4(octets.into()),
        Hop::Ip6(octets) => Protocol::Ip6(octets.into()),
        Hop::Udp(port) => Protocol::Udp(port),
        Hop::Tcp(port) => Protocol::Tcp(port),
        Hop::Quic => Protocol::Quic,
        Hop::QuicV1 => Protocol::QuicV1,
    })
}

/// `Multiaddr::with_p2p`: the address with the peer at its end. An address that already ends in
/// this peer stays as it is; one that ends in another peer is refused.
#[verifier::external_body]
fn addr_with_p2p(addr: Multiaddr, peer: &PeerId) -> (res: Option<Multiaddr>)
    requires
        peer.valid(),
    ensures
        ({
            let parts = addr_parts(addr);
            match res {
                Some(with) => if parts.len() > 0 && parts.last() is P2p {
                    parts.last() == AddrPart::P2p(*peer) && addr_parts(with) == parts
                } else {
                    addr_parts(with) == parts.push(AddrPart::P2p(*peer))
                },
                None => parts.len() > 0 && parts.last() is P2p && parts.last() != AddrPart::P2p(
                    *peer,
                ),
            }
        }),
{
    let hash = Multihash::wrap(peer.code, &peer.digest[..peer.size as usize]).unwrap();
    addr.with_p2p(libp2p::PeerId::from_multihash(hash).unwrap()).ok()
}

/// A part of an address, as far as it leads one step further.
pub open spec fn hop_of(part: AddrPart) -> Option<Hop> {
    match part {
        AddrPart::Hop(hop) => Some(hop),
        _ => None,
    }
}

/// `Multiaddr::iter`: the parts of the address in order, each as far as it leads one step
/// further.
#[verifier::external_body]
fn addr_hops(addr: &Multiaddr) -> (res: Vec<Option<Hop>>)
    ensures
        res@ == addr_parts(*addr).map_values(|part: AddrPart| hop_of(part)),
{
    addr.iter().map(|part| match part {
        Protocol::Ip4(ip) => Some(Hop::Ip4(ip.octets())),
        Protocol::Ip6(ip) => Some(Hop::Ip6(ip.octets())),
        Protocol::Udp(port) => Some(Hop::Udp(port)),
        Protocol::Tcp(port) => Some(Hop::Tcp(port)),
        Protocol::Quic => Some(Hop::Quic),
        Protocol::QuicV1 => Some(Hop::QuicV1),
        _ => None,
    }).collect()
}

/// The step to an IP address.
pub open spec fn ip_hop(ip: IpAddr) -> AddrPart {
    match ip {
        IpAddr::V4(octets) => AddrPart::Hop(Hop::Ip4(octets)),
        IpAddr::V6(octets) => AddrPart::Hop(Hop::Ip6(octets)),
    }
}

/// The parts of a QUIC address.
pub open spec fn quic_parts(ip: IpAddr, port: u16) -> Seq<AddrPart> {
    seq![ip_hop(ip), AddrPart::Hop(Hop::Udp(port)), AddrPart::Hop(Hop::QuicV1)]
}

/// The parts of a TCP address.
pub open spec fn tcp_parts(ip: IpAddr, port: u16) -> Seq<AddrPart> {
    seq![ip_hop(ip), AddrPart::Hop(Hop::Tcp(port))]
}

fn ip_addr(ip: IpAddr) -> (res: Multiaddr)
    ensures
        addr_parts(res) == seq![ip_hop(ip)],
{
    let hop = match ip {
        IpAddr::V4(octets) => Hop::Ip4(octets),
        IpAddr::V6(octets) => Hop::Ip6(octets),
    };
    let res = addr_with(empty_addr(), hop);
    assert(addr_parts(res) =~= seq![ip_hop(ip)]);
    res
}

/// The QUIC address of a socket.
pub fn quic_addr(ip: IpAddr, port: u16) -> (res: Multiaddr)
    ensures
        addr_parts(res) == quic_parts(ip, port),
{
    let res = addr_with(addr_with(ip_addr(ip), Hop::Udp(port)), Hop::QuicV1);
    assert(addr_parts(res) =~= quic_parts(ip, port));
    res
}

/// The TCP address of a socket.
pub fn tcp_addr(ip: IpAddr, port: u16) -> (res: Multiaddr)
    ensures
        addr_parts(res) == tcp_parts(ip, port),
{
    let res = addr_with(ip_addr(ip), Hop::Tcp(port));
    assert(addr_parts(res) =~= tcp_parts(ip, port));
    res
}

/// An address with a peer at its end.
pub(crate) fn at_peer(addr: Multiaddr, peer: &PeerId) -> (res: Multiaddr)
    requires
        peer.valid(),
        addr_parts(addr).len() > 0,
        addr_parts(addr).last() is Hop,
    ensures
        addr_parts(res) == addr_parts(addr).push(AddrPart::P2p(*peer)),
{
    addr_with_p2p(addr, peer).unwrap()
}

/// How a connection is carried.
#[derive(Clone, Copy, Debug, PartialEq, Eq, Structural)]
pub enum Transport {
    /// Over QUIC.
    Quic,
    /// Over TCP.
    Tcp,
    /// Over neither, as far as the address tells.
    Unknown,
}

/// The transport that a part of an address names.
pub open spec fn part_transport(part: AddrPart) -> Transport {
    match part {
        AddrPart::Hop(Hop::Quic) => Transport::Quic,
        AddrPart::Hop(Hop::QuicV1) => Transport::Quic,
        AddrPart::Hop(Hop::Tcp(_)) => Transport::Tcp,
        _ => Transport::Unknown,
    }
}

/// The transport that the first part of a list names which names one.
pub open spec fn first_transport(parts: Seq<AddrPart>) -> Transport
    decreases parts.len(),
{
    if parts.len() == 0 {
        Transport::Unknown
    } else if part_transport(parts[0]) != Transport::Unknown {
        part_transport(parts[0])
    } else {
        first_transport(parts.skip(1))
    }
}

/// The transport of the connections to an address.
pub fn transport_label(addr: &Multiaddr) -> (res: Transport)
    ensures
        res == first_transport(addr_parts(*addr)),
{
    let hops = addr_hops(addr);
    let ghost parts = addr_parts(*addr);
    let mut i: usize = 0;
    assert(parts.skip(0) =~= parts);
    while i < hops.len()
        invariant
            i <= hops@.len(),
            parts == addr_parts(*addr),
            hops@ == parts.map_values(|part: AddrPart| hop_of(part)),
            first_transport(parts) == first_transport(parts.skip(i as int)),
        decreases hops@.len() - i,
    {
        proof {
            assert(hops@[i as int] == hop_of(parts[i as int]));
            assert(parts.skip(i as int)[0] == parts[i as int]);
            assert(parts.skip(i as int).skip(1) =~= parts.skip(i + 1));
        }
        match &hops[i] {
            Some(Hop::Quic) => {
                return Transport::Quic;
            },
            Some(Hop::QuicV1) => {
                return Transport::Quic;
            },
            Some(Hop::Tcp(_)) => {
                return Transport::Tcp;
            },
            _ => {},
        }
        i = i + 1;
    }
    Transport::Unknown
}

impl Transport {
    /// The transport's name.
    pub fn label(self) -> (res: &'static str)
        ensures
            res@ == (match self {
                Transport::Quic => "quic"@,
                Transport::Tcp => "tcp"@,
                Transport::Unknown => "unknown"@,
            }),
    {
        match self {
            Transport::Quic => "quic",
            Transport::Tcp => "tcp",
            Transport::Unknown => "unknown",
        }
    }
}

/// The addresses that a node listens on and is dialed at are told apart by their transport.
pub proof fn law_dialed_addresses_carry_their_transport(ip: IpAddr, port: u16, peer: PeerId)
    ensures
        first_transport(quic_parts(ip, port)) == Transport::Quic,
        first_transport(quic_parts(ip, port).push(AddrPart::P2p(peer))) == Transport::Quic,
        first_transport(tcp_parts(ip, port)) == Transport::Tcp,
        first_transport(tcp_parts(ip, port).push(AddrPart::P2p(peer))) == Transport::Tcp,
{
    reveal_with_fuel(first_transport, 4);
}

} // verus!
