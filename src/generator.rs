use ed25519_dalek::SigningKey;
use sha2::{Digest, Sha256};
use vstd::prelude::*;
use vstd::string::StringSliceAdditionalSpecFns;

verus! {

/// Version tag mixed into every seed; changing it moves the whole search to
/// a fresh region of the key space.
pub const VERSION: &'static str = "v0.0.1";

/// The SHA-256 digest of a byte string.
pub uninterp spec fn sha256_of(data: Seq<u8>) -> Seq<u8>;

/// The Ed25519 public key derived from a 32-byte secret key.
pub uninterp spec fn ed25519_public_of(secret: Seq<u8>) -> Seq<u8>;

/// The base-58 (Bitcoin alphabet) text of a byte string.
pub uninterp spec fn base58_of(data: Seq<u8>) -> Seq<char>;

/// Relies on `sha2::Sha256::digest`: the SHA-256 digest of `data`.
#[verifier::external_body]
fn sha256(data: &[u8]) -> (r: [u8; 32])
    ensures
        r@ == sha256_of(data@),
{
    Sha256::digest(data).into()
}

/// Relies on `ed25519_dalek::SigningKey::from_bytes`, `verifying_key` and
/// `to_bytes`: the key pair of secret `seed`, as (public key, secret key).
/// The secret key is the seed itself.
#[verifier::external_body]
fn ed25519_keypair(seed: &[u8; 32]) -> (r: ([u8; 32], [u8; 32]))
    ensures
        r.0@ == ed25519_public_of(seed@),
        r.1@ == seed@,
{
    let signing_key = SigningKey::from_bytes(seed);
    (signing_key.verifying_key().to_bytes(), signing_key.to_bytes())
}

/// Relies on `bs58::encode(..).into_string()`: the base-58 text of `data`.
#[verifier::external_body]
fn base58(data: &[u8]) -> (r: String)
    ensures
        r@ == base58_of(data@),
{
    bs58::encode(data).into_string()
}

/// The four-byte hash of a version tag: the first four bytes of its SHA-256.
pub open spec fn version_hash_spec(tag: Seq<u8>) -> Seq<u8> {
    sha256_of(tag).subrange(0, 4)
}

/// Little-endian bytes of a `u32`.
pub open spec fn le_bytes_u32(v: u32) -> Seq<u8> {
    Seq::new(4, |i: int| ((v >> (8 * i) as u32) & 0xff) as u8)
}

/// Little-endian bytes of a `u64`.
pub open spec fn le_bytes_u64(v: u64) -> Seq<u8> {
    Seq::new(8, |i: int| ((v >> (8 * i) as u64) & 0xff) as u8)
}

/// The 32-byte seed of a candidate: version hash, worker id, sequence
/// number, then zeros.
pub open spec fn seed_spec(hash: Seq<u8>, worker_id: u32, sequence: u64) -> Seq<u8> {
    hash + le_bytes_u32(worker_id) + le_bytes_u64(sequence) + Seq::new(16, |i: int| 0u8)
}

/// The address of the candidate derived from a seed.
pub open spec fn address_of_seed(seed: Seq<u8>) -> Seq<char> {
    base58_of(ed25519_public_of(seed))
}

/// The private key text of the candidate derived from a seed.
pub open spec fn private_key_of_seed(seed: Seq<u8>) -> Seq<char> {
    base58_of(seed)
}

/// The address generated for a version tag, worker id and sequence number.
pub open spec fn candidate_address(tag: Seq<u8>, worker_id: u32, sequence: u64) -> Seq<char> {
    address_of_seed(seed_spec(version_hash_spec(tag), worker_id, sequence))
}

/// The private key generated for a version tag, worker id and sequence number.
pub open spec fn candidate_private_key(tag: Seq<u8>, worker_id: u32, sequence: u64) -> Seq<
    char,
> {
    private_key_of_seed(seed_spec(version_hash_spec(tag), worker_id, sequence))
}

/// The four-byte hash of `tag`.
pub fn version_hash(tag: &str) -> (r: [u8; 4])
    ensures
        r@ == version_hash_spec(tag.spec_bytes()),
{
    let digest = sha256(tag.as_bytes());
    let r: [u8; 4] = [digest[0], digest[1], digest[2], digest[3]];
    assert(r@ =~= version_hash_spec(tag.spec_bytes()));
    r
}

/// Build the seed buffer for one candidate.
pub fn derive_seed(hash: &[u8; 4], worker_id: u32, sequence: u64) -> (seed: [u8; 32])
    ensures
        seed@ == seed_spec(hash@, worker_id, sequence),
{
    let mut seed: [u8; 32] = [0u8; 32];
    let mut i: usize = 0;
    while i < 4
        invariant
            i <= 4,
            seed@.len() == 32,
            forall|k: int| 0 <= k < i ==> seed@[k] == hash@[k],
            forall|k: int| 4 <= k < 32 ==> seed@[k] == 0,
        decreases 4 - i,
    {
        seed[i] = hash[i];
        i = i + 1;
    }
    let mut i: usize = 0;
    while i < 4
        invariant
            i <= 4,
            seed@.len() == 32,
            forall|k: int| 0 <= k < 4 ==> seed@[k] == hash@[k],
            forall|k: int| 0 <= k < i ==> seed@[4 + k] == le_bytes_u32(worker_id)[k],
            forall|k: int| 8 <= k < 32 ==> seed@[k] == 0,
        decreases 4 - i,
    {
        seed[4 + i] = ((worker_id >> (8 * i) as u32) & 0xff) as u8;
        i = i + 1;
    }
    let mut i: usize = 0;
    while i < 8
        invariant
            i <= 8,
            seed@.len() == 32,
            forall|k: int| 0 <= k < 4 ==> seed@[k] == hash@[k],
            forall|k: int| 0 <= k < 4 ==> seed@[4 + k] == le_bytes_u32(worker_id)[k],
            forall|k: int| 0 <= k < i ==> seed@[8 + k] == le_bytes_u64(sequence)[k],
            forall|k: int| 16 <= k < 32 ==> seed@[k] == 0,
        decreases 8 - i,
    {
        seed[8 + i] = ((sequence >> (8 * i) as u64) & 0xff) as u8;
        i = i + 1;
    }
    assert(seed@ =~= seed_spec(hash@, worker_id, sequence));
    seed
}

/// The candidate (address, private key) of one seed.
pub fn keypair_from_seed(seed: &[u8; 32]) -> (r: (String, String))
    ensures
        r.0@ == address_of_seed(seed@),
        r.1@ == private_key_of_seed(seed@),
{
    let (public_key, secret_key) = ed25519_keypair(seed);
    (base58(public_key.as_slice()), base58(secret_key.as_slice()))
}

/// The candidate for a precomputed version hash, worker id and sequence number.
pub fn generate_from_hash(hash: &[u8; 4], worker_id: u32, sequence: u64) -> (r: (String, String))
    ensures
        r.0@ == address_of_seed(seed_spec(hash@, worker_id, sequence)),
        r.1@ == private_key_of_seed(seed_spec(hash@, worker_id, sequence)),
{
    let seed = derive_seed(hash, worker_id, sequence);
    keypair_from_seed(&seed)
}

/// The candidate (address, private key) for a version tag, worker id and
/// sequence number.
pub fn generate(version_tag: &str, worker_id: u32, sequence: u64) -> (r: (String, String))
    ensures
        r.0@ == candidate_address(version_tag.spec_bytes(), worker_id, sequence),
        r.1@ == candidate_private_key(version_tag.spec_bytes(), worker_id, sequence),
{
    let hash = version_hash(version_tag);
    generate_from_hash(&hash, worker_id, sequence)
}

/// The candidate of worker `thread_id` at sequence number `nonce`, under the
/// built-in version tag.
pub fn mine_address(thread_id: u32, nonce: u64) -> (r: (String, String))
    ensures
        r.0@ == candidate_address(VERSION.spec_bytes(), thread_id, nonce),
        r.1@ == candidate_private_key(VERSION.spec_bytes(), thread_id, nonce),
{
    generate(VERSION, thread_id, nonce)
}

/// Generation is a function of its inputs: equal version tags, worker ids
/// and sequence numbers give the same address and private key.
pub proof fn lemma_generate_deterministic(
    tag1: Seq<u8>,
    tag2: Seq<u8>,
    worker_id: u32,
    sequence: u64,
)
    requires
        tag1 == tag2,
    ensures
        candidate_address(tag1, worker_id, sequence) == candidate_address(tag2, worker_id, sequence),
        candidate_private_key(tag1, worker_id, sequence) == candidate_private_key(
            tag2,
            worker_id,
            sequence,
        ),
{
}

proof fn lemma_le_bytes_u32_injective(a: u32, b: u32)
    requires
        le_bytes_u32(a) == le_bytes_u32(b),
    ensures
        a == b,
{
    assert(le_bytes_u32(a)[0] == le_bytes_u32(b)[0]);
    assert(le_bytes_u32(a)[0] == ((a >> 0u32) & 0xff) as u8);
    assert(le_bytes_u32(b)[0] == ((b >> 0u32) & 0xff) as u8);
    assert(le_bytes_u32(a)[1] == le_bytes_u32(b)[1]);
    assert(le_bytes_u32(a)[1] == ((a >> 8u32) & 0xff) as u8);
    assert(le_bytes_u32(b)[1] == ((b >> 8u32) & 0xff) as u8);
    assert(le_bytes_u32(a)[2] == le_bytes_u32(b)[2]);
    assert(le_bytes_u32(a)[2] == ((a >> 16u32) & 0xff) as u8);
    assert(le_bytes_u32(b)[2] == ((b >> 16u32) & 0xff) as u8);
    assert(le_bytes_u32(a)[3] == le_bytes_u32(b)[3]);
    assert(le_bytes_u32(a)[3] == ((a >> 24u32) & 0xff) as u8);
    assert(le_bytes_u32(b)[3] == ((b >> 24u32) & 0xff) as u8);
    assert(a == b) by (bit_vector)
        requires
            ((a >> 0u32) & 0xff) as u8 == ((b >> 0u32) & 0xff) as u8,
            ((a >> 8u32) & 0xff) as u8 == ((b >> 8u32) & 0xff) as u8,
            ((a >> 16u32) & 0xff) as u8 == ((b >> 16u32) & 0xff) as u8,
            ((a >> 24u32) & 0xff) as u8 == ((b >> 24u32) & 0xff) as u8,
    ;
}

proof fn lemma_le_bytes_u64_injective(a: u64, b: u64)
    requires
        le_bytes_u64(a) == le_bytes_u64(b),
    ensures
        a == b,
{
    assert(le_bytes_u64(a)[0] == le_bytes_u64(b)[0]);
    assert(le_bytes_u64(a)[0] == ((a >> 0u64) & 0xff) as u8);
    assert(le_bytes_u64(b)[0] == ((b >> 0u64) & 0xff) as u8);
    assert(le_bytes_u64(a)[1] == le_bytes_u64(b)[1]);
    assert(le_bytes_u64(a)[1] == ((a >> 8u64) & 0xff) as u8);
    assert(le_bytes_u64(b)[1] == ((b >> 8u64) & 0xff) as u8);
    assert(le_bytes_u64(a)[2] == le_bytes_u64(b)[2]);
    assert(le_bytes_u64(a)[2] == ((a >> 16u64) & 0xff) as u8);
    assert(le_bytes_u64(b)[2] == ((b >> 16u64) & 0xff) as u8);
    assert(le_bytes_u64(a)[3] == le_bytes_u64(b)[3]);
    assert(le_bytes_u64(a)[3] == ((a >> 24u64) & 0xff) as u8);
    assert(le_bytes_u64(b)[3] == ((b >> 24u64) & 0xff) as u8);
    assert(le_bytes_u64(a)[4] == le_bytes_u64(b)[4]);
    assert(le_bytes_u64(a)[4] == ((a >> 32u64) & 0xff) as u8);
    assert(le_bytes_u64(b)[4] == ((b >> 32u64) & 0xff) as u8);
    assert(le_bytes_u64(a)[5] == le_bytes_u64(b)[5]);
    assert(le_bytes_u64(a)[5] == ((a >> 40u64) & 0xff) as u8);
    assert(le_bytes_u64(b)[5] == ((b >> 40u64) & 0xff) as u8);
    assert(le_bytes_u64(a)[6] == le_bytes_u64(b)[6]);
    assert(le_bytes_u64(a)[6] == ((a >> 48u64) & 0xff) as u8);
    assert(le_bytes_u64(b)[6] == ((b >> 48u64) & 0xff) as u8);
    assert(le_bytes_u64(a)[7] == le_bytes_u64(b)[7]);
    assert(le_bytes_u64(a)[7] == ((a >> 56u64) & 0xff) as u8);
    assert(le_bytes_u64(b)[7] == ((b >> 56u64) & 0xff) as u8);
    assert(a == b) by (bit_vector)
        requires
            ((a >> 0u64) & 0xff) as u8 == ((b >> 0u64) & 0xff) as u8,
            ((a >> 8u64) & 0xff) as u8 == ((b >> 8u64) & 0xff) as u8,
            ((a >> 16u64) & 0xff) as u8 == ((b >> 16u64) & 0xff) as u8,
            ((a >> 24u64) & 0xff) as u8 == ((b >> 24u64) & 0xff) as u8,
            ((a >> 32u64) & 0xff) as u8 == ((b >> 32u64) & 0xff) as u8,
            ((a >> 40u64) & 0xff) as u8 == ((b >> 40u64) & 0xff) as u8,
            ((a >> 48u64) & 0xff) as u8 == ((b >> 48u64) & 0xff) as u8,
            ((a >> 56u64) & 0xff) as u8 == ((b >> 56u64) & 0xff) as u8,
    ;
}

/// Seeds never collide across inputs: two seeds are equal only when their
/// version hashes, worker ids and sequence numbers all are. So distinct
/// (worker id, sequence) pairs search disjoint keys, and a changed version
/// hash moves every seed.
pub proof fn lemma_seed_injective(
    hash1: Seq<u8>,
    worker1: u32,
    sequence1: u64,
    hash2: Seq<u8>,
    worker2: u32,
    sequence2: u64,
)
    requires
        hash1.len() == 4,
        hash2.len() == 4,
        seed_spec(hash1, worker1, sequence1) == seed_spec(hash2, worker2, sequence2),
    ensures
        hash1 == hash2,
        worker1 == worker2,
        sequence1 == sequence2,
{
    let s1 = seed_spec(hash1, worker1, sequence1);
    let s2 = seed_spec(hash2, worker2, sequence2);
    assert(hash1 =~= s1.subrange(0, 4));
    assert(hash2 =~= s2.subrange(0, 4));
    assert(le_bytes_u32(worker1) =~= s1.subrange(4, 8));
    assert(le_bytes_u32(worker2) =~= s2.subrange(4, 8));
    assert(le_bytes_u64(sequence1) =~= s1.subrange(8, 16));
    assert(le_bytes_u64(sequence2) =~= s2.subrange(8, 16));
    lemma_le_bytes_u32_injective(worker1, worker2);
    lemma_le_bytes_u64_injective(sequence1, sequence2);
}

} // verus!
