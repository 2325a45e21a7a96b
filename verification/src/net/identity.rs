//! Who a key stands for.
use crate::keyed::KeyMap;
use crate::primitives::{PeerId, H256};
use libp2p::identity::{secp256k1, PublicKey};
use vstd::prelude::*;

verus! {

/// The compressed secp256k1 public key of a secret key, if the bytes are a secret key.
pub uninterp spec fn public_key_of(secret: Seq<u8>) -> Option<Seq<u8>>;

/// `SecretKey::try_from_bytes` and `Keypair::from` of `libp2p`'s secp256k1 keys: the compressed
/// public key that belongs to a secret key; `None` where the bytes are no secret key.
#[verifier::external_body]
fn secret_to_public(secret: &[u8]) -> (res: Option<[u8; 33]>)
    ensures
        match res {
            Some(key) => public_key_of(secret@) == Some(key@),
            None => public_key_of(secret@) is None,
        },
{
    let secret = secp256k1::SecretKey::try_from_bytes(secret.to_vec()).ok()?;
    Some(secp256k1::Keypair::from(secret).public().to_bytes())
}

/// The id of the peer with a secp256k1 public key, if the bytes are such a key.
pub uninterp spec fn peer_of_key(key: Seq<u8>) -> Option<PeerId>;

/// `PublicKey::try_from_bytes` of `libp2p`'s secp256k1 keys, and `PeerId::from_public_key`: the
/// id of the peer with the given public key; `None` where the bytes are no key. The id is valid,
/// as every id is that `from_public_key` gives.
#[verifier::external_body]
pub(crate) fn public_to_peer(key: &[u8; 33]) -> (res: Option<PeerId>)
    ensures
        res == peer_of_key(key@),
        res matches Some(peer) ==> peer.valid(),
{
    let key: PublicKey = secp256k1::PublicKey::try_from_bytes(key).ok()?.into();
    let hash = libp2p::multihash::Multihash::from(libp2p::PeerId::from_public_key(&key));
    let mut digest = [0u8; 64];
    digest[..hash.size() as usize].copy_from_slice(hash.digest());
    Some(PeerId { code: hash.code(), size: hash.size(), digest })
}

/// The fault of a byte string as a secp256k1 public key, if it is none.
pub open spec fn key_fault_of(key: Seq<u8>) -> Option<Seq<char>> {
    if peer_of_key(key) is Some {
        None
    } else {
        Some("Key decoding error: failed to parse secp256k1 public key"@)
    }
}

/// `PublicKey::try_from_bytes` of `libp2p`'s secp256k1 keys: the text of its error where the
/// bytes are no key, which is the same for all of them; `None` where they are one, and so have a
/// peer id.
#[verifier::external_body]
pub(crate) fn key_fault(key: &[u8; 33]) -> (res: Option<String>)
    ensures
        match res {
            Some(text) => key_fault_of(key@) == Some(text@),
            None => key_fault_of(key@) is None,
        },
{
    secp256k1::PublicKey::try_from_bytes(key).err().map(|err| err.to_string())
}

/// The uncompressed form of a secp256k1 public key, if the bytes are such a key.
pub uninterp spec fn uncompressed_key(key: Seq<u8>) -> Option<Seq<u8>>;

/// `PublicKey::to_bytes_uncompressed` of `libp2p`'s secp256k1 keys: the 65-byte form of a key,
/// with its leading tag; `None` where the bytes are no key, and so have no peer id either.
#[verifier::external_body]
pub(crate) fn uncompress_key(key: &[u8; 33]) -> (res: Option<[u8; 65]>)
    ensures
        match res {
            Some(long) => uncompressed_key(key@) == Some(long@),
            None => uncompressed_key(key@) is None,
        },
        res is Some <==> peer_of_key(key@) is Some,
{
    let key = secp256k1::PublicKey::try_from_bytes(key).ok()?;
    Some(key.to_bytes_uncompressed())
}

/// The id of the peer with a secret key, if the bytes are a secret key.
pub open spec fn peer_of_secret(secret: Seq<u8>) -> Option<PeerId> {
    match public_key_of(secret) {
        Some(key) => peer_of_key(key),
        None => None,
    }
}

/// The id of the peer with a secret key; `None` where the bytes are no secret key.
pub fn peer_id_of_secret(secret: &[u8]) -> (res: Option<PeerId>)
    ensures
        res == peer_of_secret(secret@),
        res matches Some(peer) ==> peer.valid(),
{
    match secret_to_public(secret) {
        Some(key) => public_to_peer(&key),
        None => None,
    }
}

/// `names` with one more entry, where there is a peer for it.
pub open spec fn with_name(
    names: Map<PeerId, Seq<char>>,
    name: Seq<char>,
    peer: Option<PeerId>,
) -> Map<PeerId, Seq<char>> {
    match peer {
        Some(id) => names.insert(id, name),
        None => names,
    }
}

/// The names of peers by the peers' ids, taken from the entries in order.
pub open spec fn names_by_peer(entries: Seq<(String, H256)>) -> Map<PeerId, Seq<char>>
    decreases entries.len(),
{
    if entries.len() == 0 {
        Map::empty()
    } else {
        with_name(
            names_by_peer(entries.drop_last()),
            entries.last().0@,
            peer_of_secret(entries.last().1.0@),
        )
    }
}

/// The texts that the values of a map stand for.
pub open spec fn text_views(names: Map<PeerId, String>) -> Map<PeerId, Seq<char>> {
    names.map_values(|s: String| s@)
}

/// Names a peer, where there is one; answers whether there is.
pub fn add_name(names: &mut KeyMap<PeerId, String>, name: String, peer: Option<PeerId>) -> (res:
    bool)
    ensures
        res == (peer is Some),
        text_views(final(names)@) == with_name(text_views(old(names)@), name@, peer),
{
    match peer {
        Some(id) => {
            names.insert(id, name);
            assert(text_views(names@) =~= text_views(old(names)@).insert(id, name@));
            true
        },
        None => false,
    }
}

/// Each entry's name under the id of the peer that its secret key belongs to. Entries whose key
/// is no secret key are left out; where two entries belong to one peer, the later one stands.
pub fn derive_peer_ids(names_and_privkeys: Vec<(String, H256)>) -> (res: KeyMap<PeerId, String>)
    ensures
        text_views(res@) == names_by_peer(names_and_privkeys@),
{
    let mut names: KeyMap<PeerId, String> = KeyMap::new();
    assert(text_views(names@) =~= Map::empty());
    let mut i: usize = 0;
    while i < names_and_privkeys.len()
        invariant
            i <= names_and_privkeys@.len(),
            text_views(names@) == names_by_peer(names_and_privkeys@.take(i as int)),
        decreases names_and_privkeys@.len() - i,
    {
        let entry = &names_and_privkeys[i];
        let peer = peer_id_of_secret(&entry.1.0);
        let name: String = entry.0.clone();
        add_name(&mut names, name, peer);
        proof {
            let more = names_and_privkeys@.take(i + 1);
            assert(more.drop_last() =~= names_and_privkeys@.take(i as int));
            assert(more.last() == names_and_privkeys@[i as int]);
        }
        i = i + 1;
    }
    assert(names_and_privkeys@.take(i as int) =~= names_and_privkeys@);
    names
}

/// Every name that is handed out belongs to an entry, under the id of that entry's own key.
pub proof fn law_names_belong_to_their_keys(entries: Seq<(String, H256)>, peer: PeerId)
    ensures
        names_by_peer(entries).contains_key(peer) <==> exists|i: int|
            0 <= i < entries.len() && #[trigger] peer_of_secret(entries[i].1.0@) == Some(peer),
        names_by_peer(entries).contains_key(peer) ==> exists|i: int|
            0 <= i < entries.len() && #[trigger] peer_of_secret(entries[i].1.0@) == Some(peer)
                && names_by_peer(entries)[peer] == entries[i].0@,
    decreases entries.len(),
{
    if entries.len() > 0 {
        let less = entries.drop_last();
        law_names_belong_to_their_keys(less, peer);
        let last = entries.len() - 1;
        assert forall|i: int|
            0 <= i < entries.len() && #[trigger] peer_of_secret(entries[i].1.0@) == Some(
                peer,
            ) implies names_by_peer(entries).contains_key(peer) by {
            if i < last {
                assert(peer_of_secret(less[i].1.0@) == Some(peer));
            }
        }
        if names_by_peer(entries).contains_key(peer) {
            if peer_of_secret(entries[last].1.0@) == Some(peer) {
                assert(names_by_peer(entries)[peer] == entries[last].0@);
            } else {
                let i = choose|i: int|
                    0 <= i < less.len() && #[trigger] peer_of_secret(less[i].1.0@) == Some(peer)
                        && names_by_peer(less)[peer] == less[i].0@;
                assert(peer_of_secret(entries[i].1.0@) == Some(peer));
                assert(names_by_peer(entries)[peer] == entries[i].0@);
            }
        }
    }
}

} // verus!
