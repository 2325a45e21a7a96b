//! The ids of gossip messages.
use vstd::bytes::{spec_u64_to_le_bytes, u64_to_le_bytes};
use vstd::prelude::*;
use vstd::string::StringSliceAdditionalSpecFns;

verus! {

/// How many bytes a message id has.
pub const MESSAGE_ID_LEN: usize = 20;

/// The SHA-256 hash of a byte string.
pub uninterp spec fn sha256_of(data: Seq<u8>) -> Seq<u8>;

/// `Sha256::digest` of the `sha2` crate: the SHA-256 hash of the data.
#[verifier::external_body]
fn sha256(data: &[u8]) -> (res: [u8; 32])
    ensures
        res@ == sha256_of(data@),
{
    <sha2::Sha256 as sha2::Digest>::digest(data).into()
}

/// The bytes that a message id is the hash of: a domain that says whether the data could be
/// decompressed, the topic with its length, and the data, decompressed where it could be.
pub open spec fn message_preimage(
    topic: Seq<u8>,
    data: Seq<u8>,
    decompressed: Option<Seq<u8>>,
) -> Seq<u8> {
    let domain = if decompressed is Some {
        seq![1u8, 0u8, 0u8, 0u8]
    } else {
        seq![0u8, 0u8, 0u8, 0u8]
    };
    let body = match decompressed {
        Some(plain) => plain,
        None => data,
    };
    domain + spec_u64_to_le_bytes(topic.len() as u64) + topic + body
}

/// The id with the given hash.
pub open spec fn message_id_of(hash: Seq<u8>) -> Seq<u8> {
    hash.take(MESSAGE_ID_LEN as int)
}

/// What an optional byte string holds.
pub open spec fn bytes_view(bytes: Option<&Vec<u8>>) -> Option<Seq<u8>> {
    match bytes {
        Some(b) => Some(b@),
        None => None,
    }
}

fn append(all: &mut Vec<u8>, more: &[u8])
    ensures
        final(all)@ == old(all)@ + more@,
{
    let mut i: usize = 0;
    assert(all@ =~= old(all)@ + more@.take(0));
    while i < more.len()
        invariant
            i <= more@.len(),
            all@ == old(all)@ + more@.take(i as int),
        decreases more@.len() - i,
    {
        all.push(more[i]);
        i = i + 1;
        assert(all@ =~= old(all)@ + more@.take(i as int));
    }
    assert(more@.take(i as int) =~= more@);
}

/// The bytes that the id of a message is the hash of.
pub fn preimage(topic: &str, data: &Vec<u8>, decompressed: Option<&Vec<u8>>) -> (res: Vec<u8>)
    ensures
        res@ == message_preimage(topic.spec_bytes(), data@, bytes_view(decompressed)),
{
    let topic_bytes = topic.as_bytes();
    let mut all: Vec<u8> = Vec::new();
    let flag: u8 = if decompressed.is_some() {
        1
    } else {
        0
    };
    all.push(flag);
    all.push(0);
    all.push(0);
    all.push(0);
    let ghost domain = all@;
    assert(domain =~= seq![flag, 0u8, 0u8, 0u8]);
    append(&mut all, &u64_to_le_bytes(topic_bytes.len() as u64));
    append(&mut all, topic_bytes);
    match decompressed {
        Some(plain) => append(&mut all, plain),
        None => append(&mut all, data),
    }
    all
}

/// The first bytes of a hash.
pub fn id_from_hash(hash: &[u8; 32]) -> (res: Vec<u8>)
    ensures
        res@ == message_id_of(hash@),
{
    let mut id: Vec<u8> = Vec::new();
    let mut i: usize = 0;
    while i < MESSAGE_ID_LEN
        invariant
            i <= MESSAGE_ID_LEN,
            id@ == hash@.take(i as int),
        decreases MESSAGE_ID_LEN - i,
    {
        id.push(hash[i]);
        i = i + 1;
        assert(id@ =~= hash@.take(i as int));
    }
    id
}

/// The id of a message, from its topic and its data, with the data decompressed where that could
/// be done.
pub fn compute_message_id(topic: &str, data: &Vec<u8>, decompressed: Option<&Vec<u8>>) -> (res:
    Vec<u8>)
    ensures
        res@ == message_id_of(
            sha256_of(message_preimage(topic.spec_bytes(), data@, bytes_view(decompressed))),
        ),
{
    let all = preimage(topic, data, decompressed);
    id_from_hash(&sha256(&all))
}

/// What is hashed tells messages apart: two messages with the same bytes to hash have the same
/// topic, the same data as far as it could be decompressed, and either both or neither could be.
pub proof fn law_preimages_tell_messages_apart(
    topic_a: Seq<u8>,
    data_a: Seq<u8>,
    plain_a: Option<Seq<u8>>,
    topic_b: Seq<u8>,
    data_b: Seq<u8>,
    plain_b: Option<Seq<u8>>,
)
    requires
        topic_a.len() <= u64::MAX,
        topic_b.len() <= u64::MAX,
        message_preimage(topic_a, data_a, plain_a) == message_preimage(topic_b, data_b, plain_b),
    ensures
        topic_a == topic_b,
        plain_a is Some <==> plain_b is Some,
        (match plain_a {
            Some(plain) => plain,
            None => data_a,
        }) == (match plain_b {
            Some(plain) => plain,
            None => data_b,
        }),
{
    let a = message_preimage(topic_a, data_a, plain_a);
    let b = message_preimage(topic_b, data_b, plain_b);
    vstd::bytes::lemma_auto_spec_u64_to_from_le_bytes();
    let len_a = spec_u64_to_le_bytes(topic_a.len() as u64);
    let len_b = spec_u64_to_le_bytes(topic_b.len() as u64);
    assert(len_a.len() == 8 && len_b.len() == 8);
    assert(a[0] == b[0]);
    assert(a.subrange(4, 12) =~= len_a);
    assert(b.subrange(4, 12) =~= len_b);
    assert(topic_a.len() == topic_b.len());
    let end = 12 + topic_a.len();
    assert(a.subrange(12, end as int) =~= topic_a);
    assert(b.subrange(12, end as int) =~= topic_b);
    let body_a = match plain_a {
        Some(plain) => plain,
        None => data_a,
    };
    let body_b = match plain_b {
        Some(plain) => plain,
        None => data_b,
    };
    assert(a.skip(end as int) =~= body_a);
    assert(b.skip(end as int) =~= body_b);
}

} // verus!
