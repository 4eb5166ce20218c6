use ed25519_dalek::SigningKey;
use sha2::{Digest, Sha256};
use twin_miner::generator::{
    derive_seed, generate, generate_from_hash, keypair_from_seed, mine_address, version_hash,
    VERSION,
};

#[test]
fn generate_is_deterministic() {
    let a = generate("v0.0.1", 3, 42);
    let b = generate("v0.0.1", 3, 42);
    assert_eq!(a, b);
}

#[test]
fn changing_version_changes_address() {
    let a = generate("v0.0.1", 3, 42);
    let b = generate("v0.0.2", 3, 42);
    assert_ne!(a.0, b.0);
    assert_ne!(a.1, b.1);
}

#[test]
fn distinct_worker_or_sequence_gives_distinct_keys() {
    let a = generate("v0.0.1", 0, 0);
    let b = generate("v0.0.1", 1, 0);
    let c = generate("v0.0.1", 0, 1);
    assert_ne!(a.0, b.0);
    assert_ne!(a.0, c.0);
    assert_ne!(b.0, c.0);
}

#[test]
fn version_hash_is_sha256_prefix() {
    let digest = Sha256::digest(b"v0.0.1");
    assert_eq!(version_hash("v0.0.1"), [digest[0], digest[1], digest[2], digest[3]]);
}

#[test]
fn seed_layout_is_hash_worker_sequence_zeros() {
    let seed = derive_seed(&[1, 2, 3, 4], 0x0a0b0c0d, 0x1122334455667788);
    let mut expected = [0u8; 32];
    expected[0..4].copy_from_slice(&[1, 2, 3, 4]);
    expected[4..8].copy_from_slice(&0x0a0b0c0du32.to_le_bytes());
    expected[8..16].copy_from_slice(&0x1122334455667788u64.to_le_bytes());
    assert_eq!(seed, expected);
}

#[test]
fn keypair_encodes_public_and_secret_in_base58() {
    let seed = derive_seed(&[9, 8, 7, 6], 5, 77);
    let (address, private_key) = keypair_from_seed(&seed);
    let secret = bs58::decode(&private_key).into_vec().unwrap();
    assert_eq!(secret, seed.to_vec());
    let public = bs58::decode(&address).into_vec().unwrap();
    let expected = SigningKey::from_bytes(&seed).verifying_key().to_bytes();
    assert_eq!(public, expected.to_vec());
    assert_ne!(address, private_key);
}

#[test]
fn generate_matches_its_steps() {
    let hash = version_hash("tag");
    assert_eq!(generate("tag", 2, 9), generate_from_hash(&hash, 2, 9));
    let seed = derive_seed(&hash, 2, 9);
    assert_eq!(generate("tag", 2, 9), keypair_from_seed(&seed));
}

#[test]
fn mine_address_uses_builtin_version() {
    assert_eq!(VERSION, "v0.0.1");
    assert_eq!(mine_address(4, 1000), generate(VERSION, 4, 1000));
    let (address, _) = mine_address(4, 1000);
    assert!(address.len() >= 32);
}
