use filip::symmetric_key::whitened_subset;
use filip::{Bit, Encrypter, SymmetricKey, SystemParameters};

fn randomness(key_size: usize, salt: u8) -> Vec<u8> {
    let mut bytes = Vec::with_capacity(8 + key_size);
    let mut state: u32 = 0x1234_5678 ^ (salt as u32);
    for _ in 0..8 + key_size {
        state = state.wrapping_mul(1_103_515_245).wrapping_add(12_345);
        bytes.push((state >> 16) as u8);
    }
    bytes
}

fn fresh(count: usize) -> Vec<u8> {
    let mut generator = concrete_csprng::RandomGenerator::new(None);
    (0..count).map(|_| generator.generate_next()).collect()
}

fn fresh_pair(parameters: &SystemParameters) -> (Encrypter<bool>, Encrypter<bool>) {
    let bytes = fresh(8 + parameters.parameters().key_size);
    Encrypter::<bool>::new::<bool>(parameters, None, None, None, None, &bytes)
}

fn message(len: usize) -> Vec<bool> {
    (0..len).map(|i| (i * i + i / 3) % 5 < 2).collect()
}

fn round_trip(parameters: &SystemParameters, n_iter: usize) {
    let (mut encryptor, mut decryptor) = fresh_pair(parameters);
    let message = message(n_iter);
    let mut ciphertext = vec![false; n_iter];
    let mut decryption = vec![false; n_iter];
    encryptor.encrypt(&mut ciphertext, &message);
    decryptor.decrypt(&mut decryption, &ciphertext);
    assert_eq!(message, decryption);
}

#[test]
fn clear_round_trip_1216() {
    round_trip(&SystemParameters::n1216, 40);
}

#[test]
fn clear_round_trip_1280() {
    round_trip(&SystemParameters::n1280, 40);
}

#[test]
fn clear_round_trip_144() {
    round_trip(&SystemParameters::n144, 40);
}

#[test]
fn round_trip_of_the_empty_message() {
    round_trip(&SystemParameters::n144, 0);
}

#[test]
fn paired_ends_stay_paired_message_after_message() {
    let (mut encryptor, mut decryptor) = fresh_pair(&SystemParameters::n1280);
    for len in [7usize, 1, 0, 19] {
        let message = message(len);
        let mut ciphertext = vec![false; len];
        let mut decryption = vec![true; len];
        encryptor.encrypt(&mut ciphertext, &message);
        decryptor.decrypt(&mut decryption, &ciphertext);
        assert_eq!(message, decryption);
    }
}

#[test]
fn paired_ends_yield_the_same_keystream() {
    for parameters in [SystemParameters::n1216, SystemParameters::n1280, SystemParameters::n144] {
        let (mut first, mut second) = fresh_pair(&parameters);
        for _ in 0..25 {
            assert_eq!(first.stream(), second.stream());
        }
    }
}

#[test]
fn encrypting_is_the_keystream_xor_the_message() {
    let bytes = randomness(16384, 1);
    let (mut encryptor, mut witness) = Encrypter::<bool>::new::<bool>(
        &SystemParameters::n144,
        None,
        None,
        None,
        None,
        &bytes,
    );
    let message = message(30);
    let mut ciphertext = vec![false; 30];
    encryptor.encrypt(&mut ciphertext, &message);
    for i in 0..30 {
        let keystream = witness.stream();
        assert_eq!(ciphertext[i], keystream ^ message[i]);
    }
}

#[test]
fn the_same_randomness_makes_the_same_cipher() {
    let bytes = randomness(4096, 2);
    let (mut a, _) = Encrypter::<bool>::new::<bool>(
        &SystemParameters::n1280,
        None,
        None,
        None,
        None,
        &bytes,
    );
    let (mut b, _) = Encrypter::<bool>::new::<bool>(
        &SystemParameters::n1280,
        None,
        None,
        None,
        None,
        &bytes,
    );
    let zeros = vec![false; 64];
    let mut first = vec![false; 64];
    let mut second = vec![true; 64];
    a.encrypt(&mut first, &zeros);
    b.encrypt(&mut second, &zeros);
    assert_eq!(first, second);
    assert!(first.iter().any(|b| *b));
    assert!(first.iter().any(|b| !*b));
}

#[test]
fn the_seed_is_the_first_eight_bytes_lowest_first() {
    let bytes = randomness(4096, 5);
    let (mut made, _) = Encrypter::<bool>::new::<bool>(
        &SystemParameters::n1280,
        None,
        None,
        None,
        None,
        &bytes,
    );
    let key: Vec<bool> = bytes[8..].iter().map(|b| b % 2 == 1).collect();
    let seed = u64::from_le_bytes([
        bytes[0], bytes[1], bytes[2], bytes[3], bytes[4], bytes[5], bytes[6], bytes[7],
    ]);
    let mut rebuilt = Encrypter::<bool>::from_key(&SystemParameters::n1280, key, seed);
    for _ in 0..20 {
        assert_eq!(made.stream(), rebuilt.stream());
    }
}

#[test]
fn another_seed_makes_another_keystream() {
    let mut bytes = randomness(16384, 3);
    let (mut a, _) = Encrypter::<bool>::new::<bool>(
        &SystemParameters::n144,
        None,
        None,
        None,
        None,
        &bytes,
    );
    bytes[0] ^= 1;
    let (mut b, _) = Encrypter::<bool>::new::<bool>(
        &SystemParameters::n144,
        None,
        None,
        None,
        None,
        &bytes,
    );
    let zeros = vec![false; 128];
    let mut first = vec![false; 128];
    let mut second = vec![false; 128];
    a.encrypt(&mut first, &zeros);
    b.encrypt(&mut second, &zeros);
    assert_ne!(first, second);
}

#[test]
fn encrypt_handles_as_many_bits_as_both_sides_have() {
    let bytes = randomness(16384, 4);
    let (mut a, mut b) = Encrypter::<bool>::new::<bool>(
        &SystemParameters::n144,
        None,
        None,
        None,
        None,
        &bytes,
    );
    let ones = vec![true; 10];
    let mut short = vec![false; 4];
    a.encrypt(&mut short, &ones);
    let mut long = vec![false; 10];
    b.encrypt(&mut long, &ones[..4]);
    assert_eq!(short[..], long[..4]);
    assert_eq!(long[4..], [false; 6]);
    // Both ends stand at the fifth round now.
    assert_eq!(a.stream(), b.stream());
}

#[test]
fn key_bits_are_the_low_bits_of_the_randomness() {
    let mut bytes = vec![0u8; 8];
    bytes.extend_from_slice(&[1, 0, 2, 3, 255, 254]);
    let (first, second) =
        Encrypter::<bool>::key_gen::<bool>(&bytes, 6, None, None, None, None);
    assert_eq!(first, vec![true, false, false, true, true, false]);
    assert_eq!(second, first);
}

#[test]
fn whitened_subset_draws_without_repetition_and_negates_by_the_mask() {
    let key = [true, false, true, false];
    let mut bytes = Vec::new();
    bytes.extend_from_slice(&5u64.to_le_bytes());
    bytes.extend_from_slice(&7u64.to_le_bytes());
    bytes.extend_from_slice(&[1, 0]);
    // First draw: place 0 + 5 % 4 = 1, so index 1; second: place 1 + 7 % 3 = 2,
    // which holds index 2. The first is negated.
    assert_eq!(whitened_subset(&key, 2, &bytes), vec![true, true]);
}

#[test]
fn whitened_subset_of_the_whole_key_is_a_permutation() {
    let key: Vec<bool> = (0..16).map(|i| i < 5).collect();
    let mut bytes = Vec::new();
    for t in 0u64..16 {
        bytes.extend_from_slice(&(t * 0x9E37_79B9_7F4A_7C15).to_le_bytes());
    }
    bytes.extend_from_slice(&[0; 16]);
    let round = whitened_subset(&key, 16, &bytes);
    assert_eq!(round.len(), 16);
    assert_eq!(round.iter().filter(|b| **b).count(), 5);
}

#[test]
fn whitened_subset_reads_words_lowest_byte_first() {
    let key = [false, true, false];
    // The word 0x0100: 256 % 3 = 1.
    let mut bytes = vec![0, 1, 0, 0, 0, 0, 0, 0];
    bytes.push(0);
    assert_eq!(whitened_subset(&key, 1, &bytes), vec![true]);
    // The word 2^56: 2^56 % 3 = 1 as well; 2^56 + 1 gives 2.
    let mut bytes = vec![1, 0, 0, 0, 0, 0, 0, 1];
    bytes.push(0);
    assert_eq!(whitened_subset(&key, 1, &bytes), vec![false]);
}

#[test]
fn rounds_follow_the_generator_seeded_with_seed_and_round() {
    let key: Vec<bool> = (0..64).map(|i| i % 3 == 0).collect();
    let seed = 0x0123_4567_89AB_CDEFu64;
    let mut symmetric = SymmetricKey::new(key.clone(), 8, seed);
    for round in 0u128..5 {
        let mut generator = concrete_csprng::RandomGenerator::new(Some((round << 64) | seed as u128));
        let bytes: Vec<u8> = (0..72).map(|_| generator.generate_next()).collect();
        assert_eq!(symmetric.random_whitened_subset(), whitened_subset(&key, 8, &bytes));
    }
}

#[test]
fn the_first_round_of_the_zero_seed_is_known() {
    // Under the zero key, AES-128 encrypts the zero block to
    // 66 e9 4b d4 ef 8a 2c 3b 88 4c fa 59 ca 34 2b 2e: the first word is
    // 0x3b2c8aefd44be966, which draws the index 0x66 among 256, and the mask
    // byte 0x88 is even.
    let mut key = vec![false; 256];
    key[0x66] = true;
    let mut symmetric = SymmetricKey::new(key, 1, 0);
    assert_eq!(symmetric.random_whitened_subset(), vec![true]);
    let mut key = vec![true; 256];
    key[0x66] = false;
    let mut symmetric = SymmetricKey::new(key, 1, 0);
    assert_eq!(symmetric.random_whitened_subset(), vec![false]);
    // Two key bits: the second draw finds a key bit that is not set, and
    // the mask bytes are the seventeenth and the eighteenth byte.
    let mut key = vec![false; 256];
    key[0x66] = true;
    let mut symmetric = SymmetricKey::new(key.clone(), 2, 0);
    let round = symmetric.random_whitened_subset();
    let mut generator = concrete_csprng::RandomGenerator::new(Some(0));
    let bytes: Vec<u8> = (0..18).map(|_| generator.generate_next()).collect();
    assert_eq!(bytes[..16], [
        0x66, 0xe9, 0x4b, 0xd4, 0xef, 0x8a, 0x2c, 0x3b, 0x88, 0x4c, 0xfa, 0x59, 0xca, 0x34, 0x2b,
        0x2e
    ]);
    assert_eq!(round, vec![bytes[16] % 2 == 0, bytes[17] % 2 == 1]);
}

#[test]
fn rounds_differ_from_one_another() {
    let key: Vec<bool> = (0..256).map(|i| i % 2 == 0).collect();
    let mut symmetric = SymmetricKey::new(key, 128, 42);
    let first = symmetric.random_whitened_subset();
    let second = symmetric.random_whitened_subset();
    assert_eq!(first.len(), 128);
    assert_ne!(first, second);
}

#[test]
fn clear_bits() {
    assert_eq!(<bool as Bit>::zero(None, None), false);
    assert_eq!(<bool as Bit>::one(None, None), true);
    let mut b = false;
    Bit::not_inplace(&mut b);
    assert_eq!(b, true);
    Bit::xor_assign(&mut b, &true);
    assert_eq!(b, false);
    Bit::xor_assign(&mut b, &true);
    assert_eq!(b, true);
    assert_eq!(Bit::not(&b), false);
    assert_eq!(Bit::xor(&b, &true), false);
    assert_eq!(Bit::xor(&b, &false), true);
    assert_eq!(Bit::duplicate(&b), true);
}
