use zombies::Zombie;
use zombies::ZombieGender;
#[test]
fn derivation_is_deterministic() {
    let seed = [17u8; 32];
    let a = zombies::derivation::derive(&seed, 4, 9);
    let b = zombies::derivation::derive(&seed, 4, 9);
    assert_eq!(a, b);
}

#[test]
fn derivation_is_sensitive_to_each_input() {
    let seed = [17u8; 32];
    let mut other_seed = seed;
    other_seed[0] ^= 1;
    let base = zombies::derivation::derive(&seed, 4, 9);
    assert_ne!(zombies::derivation::derive(&other_seed, 4, 9), base);
    assert_ne!(zombies::derivation::derive(&seed, 5, 9), base);
    assert_ne!(zombies::derivation::derive(&seed, 4, 10), base);
}

#[test]
fn derivation_hashes_seed_owner_then_index() {
    // The derived payload is the 128-bit Blake2b digest of the seed bytes,
    // then the owner's little-endian bytes, then the index's.
    let seed = [0xabu8, 0xcd, 0xef, 0x01];
    let owner: u64 = 0x1122334455667788;
    let idx: u32 = 0x99aabbcc;
    let mut buffer: Vec<u8> = Vec::new();
    buffer.extend_from_slice(&seed);
    buffer.extend_from_slice(&owner.to_le_bytes());
    buffer.extend_from_slice(&idx.to_le_bytes());
    let expected = sp_io::hashing::blake2_128(&buffer);
    assert_eq!(zombies::derivation::derive(&seed, owner, idx), expected);
}

#[test]
fn derivation_is_not_the_identity_on_its_seed() {
    // A 16-byte seed with owner and index appended must not come back as
    // the payload: the buffer is hashed, not copied.
    let seed = [0x5au8; 16];
    let payload = zombies::derivation::derive(&seed, 0, 0);
    assert_ne!(payload, seed);
}

#[test]
fn gender_follows_first_byte_parity() {
    let mut payload = [0u8; 16];
    let male = Zombie(payload);
    assert_eq!(male.gender(), ZombieGender::Male);
    payload[0] = 1;
    let female = Zombie(payload);
    assert_eq!(female.gender(), ZombieGender::Female);
    payload[0] = 200;
    assert_eq!(Zombie(payload).gender(), ZombieGender::Male);
    payload[0] = 201;
    assert_eq!(Zombie(payload).gender(), ZombieGender::Female);
    // Only the first byte decides; later bytes are irrelevant.
    payload[0] = 2;
    payload[1] = 255;
    payload[15] = 255;
    assert_eq!(Zombie(payload).gender(), ZombieGender::Male);
}

#[test]
fn gender_is_stable_across_repeated_calls() {
    let z = Zombie([7u8; 16]);
    let first = z.gender();
    for _ in 0..10 {
        assert_eq!(z.gender(), first);
    }
}
