//! Identities that the node keys its tables by: block roots, peers and outbound requests.
use vstd::prelude::*;

verus! {

/// A value that can stand as a key: copied freely, and compared by what it holds.
pub trait Key: Copy + Sized {
    /// Whether the two keys are the same key.
    fn same(&self, other: &Self) -> (res: bool)
        ensures
            res == (*self == *other),
    ;
}

/// Whether two byte arrays hold the same bytes.
fn bytes_same<const N: usize>(a: &[u8; N], b: &[u8; N]) -> (res: bool)
    ensures
        res == (*a == *b),
{
    let mut i: usize = 0;
    while i < N
        invariant
            i <= N,
            forall|j: int| 0 <= j < i ==> a@[j] == b@[j],
        decreases N - i,
    {
        if a[i] != b[i] {
            assert(a@[i as int] != b@[i as int]);
            return false;
        }
        i = i + 1;
    }
    assert(*a =~= *b);
    true
}

/// A 32-byte hash: a block root, a state root or a secret key.
#[derive(Clone, Copy, Debug)]
pub struct H256(pub [u8; 32]);

impl H256 {
    /// The hash of 32 zero bytes.
    pub fn zero() -> (res: H256)
        ensures
            forall|i: int| 0 <= i < 32 ==> res.0@[i] == 0,
    {
        H256([0u8; 32])
    }
}

impl Key for H256 {
    fn same(&self, other: &H256) -> (res: bool) {
        bytes_same(&self.0, &other.0)
    }
}

impl PartialEq for H256 {
    fn eq(&self, other: &H256) -> (res: bool) {
        self.same(other)
    }
}

impl Eq for H256 {

}

impl vstd::std_specs::cmp::PartialEqSpecImpl for H256 {
    open spec fn obeys_eq_spec() -> bool {
        true
    }

    open spec fn eq_spec(&self, other: &H256) -> bool {
        *self == *other
    }
}

/// Most bytes that the digest of a peer id holds.
pub const PEER_DIGEST_LEN: usize = 64;

/// A peer id: a multihash of the peer's public key. The digest is padded with zero bytes.
#[derive(Clone, Copy, Debug)]
pub struct PeerId {
    /// The code of the hash function: 0 where the digest is the key itself.
    pub code: u64,
    /// How many bytes of `digest` count.
    pub size: u8,
    /// The digest, padded with zero bytes.
    pub digest: [u8; 64],
}

impl PeerId {
    /// Whether this is the id of some peer: a SHA-256 multihash, or a short key in plain.
    pub open spec fn valid(self) -> bool {
        &&& self.size <= 64
        &&& (self.code == 0x12 || (self.code == 0 && self.size <= 42))
        &&& forall|i: int| self.size <= i < 64 ==> self.digest@[i] == 0
    }

    /// The bytes of the digest that count.
    pub open spec fn bytes(self) -> Seq<u8> {
        self.digest@.take(self.size as int)
    }

    /// The id with the given code and digest bytes, if there is one.
    pub fn from_parts(code: u64, bytes: &[u8]) -> (res: Option<PeerId>)
        ensures
            match res {
                Some(peer) => peer.valid() && peer.code == code && peer.bytes() == bytes@,
                None => bytes@.len() > 64 || !(code == 0x12 || (code == 0 && bytes@.len() <= 42)),
            },
    {
        let len: usize = bytes.len();
        if len > PEER_DIGEST_LEN || !(code == 0x12 || (code == 0 && len <= 42)) {
            return None;
        }
        let mut digest: [u8; 64] = [0u8; 64];
        let mut i: usize = 0;
        while i < len
            invariant
                i <= len,
                len == bytes@.len(),
                len <= 64,
                forall|j: int| 0 <= j < i ==> digest@[j] == bytes@[j],
                forall|j: int| i <= j < 64 ==> digest@[j] == 0,
            decreases len - i,
        {
            digest[i] = bytes[i];
            i = i + 1;
        }
        let peer = PeerId { code, size: len as u8, digest };
        assert(peer.bytes() =~= bytes@);
        Some(peer)
    }
}

impl Key for PeerId {
    fn same(&self, other: &PeerId) -> (res: bool) {
        self.code == other.code && self.size == other.size && bytes_same(
            &self.digest,
            &other.digest,
        )
    }
}

impl PartialEq for PeerId {
    fn eq(&self, other: &PeerId) -> (res: bool) {
        self.same(other)
    }
}

impl Eq for PeerId {

}

impl vstd::std_specs::cmp::PartialEqSpecImpl for PeerId {
    open spec fn obeys_eq_spec() -> bool {
        true
    }

    open spec fn eq_spec(&self, other: &PeerId) -> bool {
        *self == *other
    }
}

/// An outbound request, by its number.
#[derive(Clone, Copy, Debug, PartialEq, Eq, Structural)]
pub struct RequestId(pub u64);

impl Key for RequestId {
    fn same(&self, other: &RequestId) -> (res: bool) {
        self.0 == other.0
    }
}

/// Peer ids with the same code and the same bytes are the same id.
pub proof fn law_peer_ids_are_told_apart_by_their_bytes(a: PeerId, b: PeerId)
    requires
        a.valid(),
        b.valid(),
    ensures
        a == b <==> a.code == b.code && a.bytes() == b.bytes(),
{
    if a.code == b.code && a.bytes() == b.bytes() {
        assert(a.bytes().len() == a.size && b.bytes().len() == b.size);
        assert forall|i: int| 0 <= i < 64 implies a.digest@[i] == b.digest@[i] by {
            if i < a.size {
                assert(a.bytes()[i] == b.bytes()[i]);
            }
        }
        assert(a.digest =~= b.digest);
    }
}

} // verus!
