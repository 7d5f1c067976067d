use filip::torus::{decode, encode, opposite, scaled, sum, HALF};
use filip::{
    Bit, EncryptedBit, Encrypter, Filter, FilterType, GlweSecretKey, Multiplexer, StandardDev,
    SystemParameters,
};

#[test]
fn torus_arithmetic_wraps() {
    assert_eq!(sum(u64::MAX, 2), 1);
    assert_eq!(sum(HALF, HALF), 0);
    assert_eq!(opposite(0), 0);
    assert_eq!(opposite(1), u64::MAX);
    assert_eq!(opposite(HALF), HALF);
    assert_eq!(scaled(HALF, 2), 0);
    assert_eq!(scaled(0x0800_0000_0000_0001, 16), HALF + 16);
}

#[test]
fn bits_are_encoded_at_the_top_of_the_torus() {
    assert_eq!(encode(false), 0);
    assert_eq!(encode(true), 1u64 << 63);
    assert_eq!(decode(encode(true)), true);
    assert_eq!(decode(encode(false)), false);
}

#[test]
fn decoding_rounds_to_the_nearest_encoding() {
    assert_eq!(decode((1u64 << 62) - 1), false);
    assert_eq!(decode(1u64 << 62), true);
    assert_eq!(decode((3u64 << 62) - 1), true);
    assert_eq!(decode(3u64 << 62), false);
    assert_eq!(decode(u64::MAX), false);
}

#[test]
fn zero_is_all_zero() {
    let zero = <EncryptedBit as Bit>::zero(Some(3), Some(2));
    assert_eq!(zero.as_glwe(), &vec![0; 6]);
    assert_eq!(zero.polynomial_size(), 3);
    assert_eq!(zero.size(), 2);
    assert_eq!(EncryptedBit::allocate(3, 2).as_glwe(), zero.as_glwe());
}

#[test]
fn one_holds_one_half_in_the_constant_term_of_the_body() {
    let one = <EncryptedBit as Bit>::one(Some(3), Some(2));
    assert_eq!(one.as_glwe(), &vec![0, 0, 0, HALF, 0, 0]);
    let one = <EncryptedBit as Bit>::one(Some(1), Some(1));
    assert_eq!(one.as_glwe(), &vec![HALF]);
}

#[test]
fn not_is_one_half_minus_the_ciphertext() {
    let mut bit = EncryptedBit::new(vec![1, 2, 3, 4], 2);
    bit.not_inplace();
    assert_eq!(
        bit.as_glwe(),
        &vec![u64::MAX, u64::MAX - 1, HALF - 3, u64::MAX - 3]
    );
    bit.not_inplace();
    assert_eq!(bit.as_glwe(), &vec![1, 2, 3, 4]);
}

#[test]
fn xor_adds_coefficient_by_coefficient() {
    let mut bit = EncryptedBit::new(vec![1, u64::MAX, HALF, 7], 2);
    let other = EncryptedBit::new(vec![2, 3, HALF, u64::MAX - 6], 2);
    bit.xor_assign(&other);
    assert_eq!(bit.as_glwe(), &vec![3, 2, 0, 0]);
    assert_eq!(other.as_glwe(), &vec![2, 3, HALF, u64::MAX - 6]);
}

#[test]
fn not_and_xor_leave_their_operands() {
    let bit = EncryptedBit::new(vec![1, 2, 3, 4], 2);
    let other = EncryptedBit::new(vec![10, 20, 30, 40], 2);
    assert_eq!(
        Bit::not(&bit).as_glwe(),
        &vec![u64::MAX, u64::MAX - 1, HALF - 3, u64::MAX - 3]
    );
    assert_eq!(bit.xor(&other).as_glwe(), &vec![11, 22, 33, 44]);
    assert_eq!(bit.as_glwe(), &vec![1, 2, 3, 4]);
    assert_eq!(other.as_glwe(), &vec![10, 20, 30, 40]);
}

#[test]
fn duplicate_copies() {
    let bit = EncryptedBit::new(vec![5, 6, 7, 8, 9, 10], 3);
    let copy = bit.duplicate();
    assert_eq!(copy.as_glwe(), bit.as_glwe());
    assert_eq!(copy.polynomial_size(), 3);
}

#[test]
fn lifting_multiplies_by_half_the_base() {
    let mut bit = EncryptedBit::new(vec![1, 1u64 << 59, (1u64 << 59) + 3, 1u64 << 60], 2);
    bit.lift_to_top(5);
    assert_eq!(bit.as_glwe(), &vec![16, HALF, HALF + 48, 0]);
    let mut bit = EncryptedBit::new(vec![1, 2], 2);
    bit.lift_to_top(1);
    assert_eq!(bit.as_glwe(), &vec![1, 2]);
    bit.lift_to_top(64);
    assert_eq!(bit.as_glwe(), &vec![HALF, 0]);
}

/// A key bit of a world without noise: it selects between ciphertexts by its
/// clear value.
struct OpenKeyBit {
    value: bool,
    polynomial_size: usize,
    size: usize,
}

impl OpenKeyBit {
    fn under(value: bool, sk: Option<&GlweSecretKey>) -> Self {
        let sk = sk.unwrap();
        OpenKeyBit {
            value,
            polynomial_size: sk.polynomial_size(),
            size: sk.as_coefficients().len() / sk.polynomial_size() + 1,
        }
    }
}

impl Multiplexer for OpenKeyBit {
    type Bit = EncryptedBit;
    type Model = bool;

    fn zero(
        sk: Option<&GlweSecretKey>,
        _decomp_level: Option<usize>,
        _decomp_base_log: Option<usize>,
        _noise_parameters: Option<StandardDev>,
    ) -> Self {
        OpenKeyBit::under(false, sk)
    }

    fn one(
        sk: Option<&GlweSecretKey>,
        _decomp_level: Option<usize>,
        _decomp_base_log: Option<usize>,
        _noise_parameters: Option<StandardDev>,
    ) -> Self {
        OpenKeyBit::under(true, sk)
    }

    fn zero_with_fhe_parameters(
        poly_size: Option<usize>,
        size: Option<usize>,
        _decomp_level: Option<usize>,
        _decomp_base_log: Option<usize>,
    ) -> Self {
        OpenKeyBit { value: false, polynomial_size: poly_size.unwrap(), size: size.unwrap() }
    }

    fn one_with_fhe_parameters(
        poly_size: Option<usize>,
        size: Option<usize>,
        _decomp_level: Option<usize>,
        _decomp_base_log: Option<usize>,
    ) -> Self {
        OpenKeyBit { value: true, polynomial_size: poly_size.unwrap(), size: size.unwrap() }
    }

    fn mux(&self, o1: &EncryptedBit, o0: &EncryptedBit) -> EncryptedBit {
        if self.value {
            o1.duplicate()
        } else {
            o0.duplicate()
        }
    }

    fn and(&self, bit: &EncryptedBit) -> EncryptedBit {
        if self.value {
            bit.duplicate()
        } else {
            EncryptedBit::allocate(self.polynomial_size, self.size)
        }
    }

    fn not(&self) -> Self {
        OpenKeyBit { value: !self.value, polynomial_size: self.polynomial_size, size: self.size }
    }

    fn not_inplace(&mut self) {
        self.value = !self.value;
    }

    fn as_bit(&self) -> EncryptedBit {
        if self.value {
            EncryptedBit::one(Some(self.polynomial_size), Some(self.size))
        } else {
            EncryptedBit::zero(Some(self.polynomial_size), Some(self.size))
        }
    }

    fn duplicate(&self) -> Self {
        OpenKeyBit { value: self.value, polynomial_size: self.polynomial_size, size: self.size }
    }

    fn same_shape(&self, other: &Self) -> bool {
        self.polynomial_size == other.polynomial_size && self.size == other.size
    }

    fn descriptor() -> String {
        "open".to_string()
    }
}

fn read(bit: &EncryptedBit) -> bool {
    let body = bit.as_glwe().len() - bit.polynomial_size();
    decode(bit.as_glwe()[body])
}

fn open_keys(values: &[bool]) -> Vec<OpenKeyBit> {
    values
        .iter()
        .map(|v| OpenKeyBit { value: *v, polynomial_size: 4, size: 2 })
        .collect()
}

#[test]
fn key_bits_without_noise_read_as_their_values() {
    let sk = GlweSecretKey::binary_from_bytes(&[1, 0, 1, 1], 4);
    let noise = Some(StandardDev { base: 2, exponent: 14 });
    for _ in 0..100 {
        let zero = OpenKeyBit::zero(Some(&sk), Some(2), Some(1), noise);
        assert_eq!(read(&zero.as_bit()), false);
        assert_eq!(read(&zero.not().as_bit()), true);
        let one = OpenKeyBit::one(Some(&sk), Some(2), Some(1), noise);
        assert_eq!(read(&one.as_bit()), true);
        assert_eq!(read(&one.not().as_bit()), false);
    }
}

#[test]
fn rounds_of_one_shape_are_told_from_mixed_ones() {
    let mut round = open_keys(&[true, false, true]);
    assert!(filip::multiplexer::is_uniform(&round));
    round.push(OpenKeyBit { value: true, polynomial_size: 8, size: 2 });
    assert!(!filip::multiplexer::is_uniform(&round));
    assert!(filip::multiplexer::is_uniform(&round[3..]));
    assert!(filip::multiplexer::is_uniform(&round[..0]));
    assert!(filip::multiplexer::is_uniform(&[true, false]));
}

#[test]
fn filters_on_ciphertexts_read_as_on_clear_bits() {
    let filters = [
        Filter::new(FilterType::XorThr, &[2, 4]),
        Filter::new(FilterType::DSM, &[2, 2, 1]),
        Filter::new(FilterType::XorThr, &[0, 5]),
        Filter::new(FilterType::XorThr, &[0, 2]),
        Filter::new(FilterType::XorThr, &[1, 8]),
        Filter::new(FilterType::XorThr, &[3, 7]),
    ];
    for filter in filters.iter() {
        for pattern in 0u32..512 {
            let round: Vec<bool> = (0..9).map(|i| pattern >> i & 1 == 1).collect();
            let clear = filter.call(&round);
            let encrypted = filter.call(&open_keys(&round));
            assert_eq!(read(&encrypted), clear);
            assert_eq!(encrypted.polynomial_size(), 4);
            assert_eq!(encrypted.size(), 2);
        }
    }
}

#[test]
fn transciphering_without_noise_yields_the_message() {
    let sk = GlweSecretKey::binary_from_bytes(&[1, 0, 1, 1, 0, 0, 1, 0], 8);
    let mut bytes = vec![0u8; 8 + 16384];
    let mut state: u64 = 0x9E37_79B9_7F4A_7C15;
    for byte in bytes.iter_mut() {
        state = state.wrapping_mul(6_364_136_223_846_793_005).wrapping_add(1_442_695_040_888_963_407);
        *byte = (state >> 56) as u8;
    }
    let (mut encryptor, mut decryptor) = Encrypter::<bool>::new::<OpenKeyBit>(
        &SystemParameters::n144,
        Some(&sk),
        Some(6),
        Some(5),
        Some(StandardDev { base: 10, exponent: 9 }),
        &bytes,
    );
    let message: Vec<bool> = (0..12).map(|i| i % 3 != 1).collect();
    let mut ciphertext = vec![false; 12];
    encryptor.encrypt(&mut ciphertext, &message);
    let mut transciphered: Vec<EncryptedBit> =
        (0..12).map(|_| EncryptedBit::allocate(8, 2)).collect();
    decryptor.decrypt(&mut transciphered, &ciphertext);
    let read: Vec<bool> = transciphered.iter().map(read).collect();
    assert_eq!(read, message);
    assert_ne!(ciphertext, message);
}
