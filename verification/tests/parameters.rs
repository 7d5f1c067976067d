use filip::encrypter::storage::{fhe_key_plan, symmetric_key_plan, KeyPlan};
use filip::{EncryptedBit, FilterType, GlweSecretKey, StandardDev, SystemParameters};

#[test]
fn parameter_sets() {
    let p = SystemParameters::n1216.parameters();
    assert_eq!((p.n, p.key_size), (1216, 16384));
    let p = SystemParameters::n1280.parameters();
    assert_eq!((p.n, p.key_size), (1280, 4096));
    let p = SystemParameters::n144.parameters();
    assert_eq!((p.n, p.key_size), (144, 16384));
}

#[test]
fn filters_of_the_parameter_sets_on_constant_rounds() {
    // All key bits set: every monomial is satisfied, 352 of them for 1216
    // and 256 for 1280, so the sums are even.
    let p = SystemParameters::n1216.parameters();
    assert_eq!(p.filter.call(&vec![true; 1216]), false);
    assert_eq!(p.filter.call(&vec![false; 1216]), false);
    let p = SystemParameters::n1280.parameters();
    assert_eq!(p.filter.call(&vec![true; 1280]), false);
    // 81 linear terms set, and the threshold of 32 among 63 reached.
    let p = SystemParameters::n144.parameters();
    assert_eq!(p.filter.call(&vec![true; 144]), false);
    assert_eq!(p.filter.call(&vec![false; 144]), false);
    let mut round = vec![false; 144];
    round[0] = true;
    assert_eq!(p.filter.call(&round), true);
    for bit in round.iter_mut().skip(81).take(32) {
        *bit = true;
    }
    assert_eq!(p.filter.call(&round), false);
    round[81] = false;
    assert_eq!(p.filter.call(&round), true);
}

#[test]
fn a_single_linear_term_of_1216() {
    let p = SystemParameters::n1216.parameters();
    let mut round = vec![false; 1216];
    round[127] = true;
    assert_eq!(p.filter.call(&round), true);
    // The first monomial of degree 2 is on the key bits 128 and 129.
    round[128] = true;
    assert_eq!(p.filter.call(&round), true);
    round[129] = true;
    assert_eq!(p.filter.call(&round), false);
}

#[test]
fn names() {
    assert_eq!(SystemParameters::n1216.name(), "FiLIP-1216");
    assert_eq!(SystemParameters::n1280.name(), "FiLIP-1280");
    assert_eq!(SystemParameters::n144.name(), "FiLIP-144");
}

#[test]
fn fhe_parameters() {
    for parameters in [SystemParameters::n1216, SystemParameters::n1280, SystemParameters::n144] {
        assert_eq!(
            parameters.fhe_parameters(),
            (1, 1024, 5, 6, StandardDev { base: 10, exponent: 9 })
        );
    }
}

#[test]
fn fhe_keys_are_the_low_bits_of_the_randomness() {
    let bytes: Vec<u8> = (0..1024u32).map(|i| (i * 7 + i / 5) as u8).collect();
    let key = SystemParameters::n144.generate_fhe_key(&bytes);
    assert_eq!(key.polynomial_size(), 1024);
    let expected: Vec<u64> = bytes.iter().map(|b| (*b % 2) as u64).collect();
    assert_eq!(key.as_coefficients(), &expected);
}

#[test]
fn fresh_fhe_keys_are_binary() {
    let mut generator = concrete_csprng::RandomGenerator::new(None);
    let bytes: Vec<u8> = (0..1024).map(|_| generator.generate_next()).collect();
    let key = SystemParameters::n1216.generate_fhe_key(&bytes);
    assert_eq!(key.polynomial_size(), 1024);
    assert_eq!(key.as_coefficients().len(), 1024);
    assert!(key.as_coefficients().iter().all(|c| *c <= 1));
    assert!(key.as_coefficients().iter().any(|c| *c == 1));
    assert!(key.as_coefficients().iter().any(|c| *c == 0));
}

#[test]
fn secret_key_of_several_polynomials() {
    let key = GlweSecretKey::generate_binary(2, 3, &[1, 1, 4, 0, 9, 2]);
    assert_eq!(key.as_coefficients(), &vec![1, 1, 0, 0, 1, 0]);
    assert_eq!(key.polynomial_size(), 3);
}

#[test]
fn secret_key_from_bytes() {
    let key = GlweSecretKey::binary_from_bytes(&[0, 1, 2, 3, 254, 255], 3);
    assert_eq!(key.as_coefficients(), &vec![0, 1, 0, 1, 0, 1]);
    assert_eq!(key.polynomial_size(), 3);
}

#[test]
fn key_paths() {
    let p = SystemParameters::n144;
    assert_eq!(p.fhe_key_directory("/tmp/k"), "/tmp/k/keys/FiLIP-144/fhe");
    assert_eq!(p.fhe_key_path("/tmp/k"), "/tmp/k/keys/FiLIP-144/fhe/secret_key");
    assert_eq!(p.symmetric_key_directory("dir"), "dir/keys/FiLIP-144/symmetric");
    assert_eq!(
        SystemParameters::n1280.symmetric_key_path("", "encrypted"),
        "/keys/FiLIP-1280/symmetric/key_encrypted"
    );
    assert_eq!(
        SystemParameters::n1216.symmetric_key_path("dir", "clear"),
        "dir/keys/FiLIP-1216/symmetric/key_clear"
    );
}

#[test]
fn key_plans() {
    assert_eq!(symmetric_key_plan(true, true, true), KeyPlan::Load);
    assert_eq!(symmetric_key_plan(true, true, false), KeyPlan::GenerateAndStore);
    assert_eq!(symmetric_key_plan(true, false, true), KeyPlan::GenerateAndStore);
    assert_eq!(symmetric_key_plan(true, false, false), KeyPlan::GenerateAndStore);
    assert_eq!(symmetric_key_plan(false, false, false), KeyPlan::Generate);
    assert_eq!(symmetric_key_plan(false, true, true), KeyPlan::Generate);
    assert_eq!(fhe_key_plan(true, true), KeyPlan::Load);
    assert_eq!(fhe_key_plan(true, false), KeyPlan::GenerateAndStore);
    assert_eq!(fhe_key_plan(false, false), KeyPlan::Generate);
}

#[test]
fn filter_types_differ() {
    assert_ne!(FilterType::DSM, FilterType::XorThr);
    let _ = EncryptedBit::allocate(2, 2);
}
