use filip::{Filter, FilterType};

#[test]
fn xor_thr() {
    let f = Filter::new(FilterType::XorThr, &[2, 4]);
    let result = f.call(&[false, false, true, true, true, true, false, true, false]);
    assert_eq!(result, true);
}

#[test]
fn dsm() {
    let f = Filter::new(FilterType::DSM, &[2, 0, 1]);
    let result = f.call(&[true, true, false, true, true]);
    assert_eq!(result, false);
}

#[test]
fn xor_thr_without_linear_terms_is_the_threshold() {
    let f = Filter::new(FilterType::XorThr, &[0, 2]);
    for pattern in 0u32..8 {
        let round: Vec<bool> = (0..3).map(|i| pattern >> i & 1 == 1).collect();
        assert_eq!(f.call(&round), pattern.count_ones() >= 2);
    }
}

#[test]
fn threshold_tells_whether_at_least_d_are_set_on_every_length() {
    for n in 1usize..=9 {
        for d in 1usize..=n + 1 {
            let f = Filter::new(FilterType::XorThr, &[0, d]);
            for pattern in 0u32..1 << n {
                let round: Vec<bool> = (0..n).map(|i| pattern >> i & 1 == 1).collect();
                assert_eq!(f.call(&round), pattern.count_ones() as usize >= d);
            }
        }
    }
}

#[test]
fn threshold_on_few_variables() {
    let f = Filter::new(FilterType::XorThr, &[0, 2]);
    assert_eq!(f.call(&[false, false]), false);
    assert_eq!(f.call(&[true, false]), false);
    assert_eq!(f.call(&[false, true]), false);
    assert_eq!(f.call(&[true, true]), true);
    // More than there are variables: never reached.
    assert_eq!(f.call(&[false]), false);
    assert_eq!(f.call(&[true]), false);
    // A single variable.
    let f = Filter::new(FilterType::XorThr, &[0, 1]);
    assert_eq!(f.call(&[false]), false);
    assert_eq!(f.call(&[true]), true);
}

#[test]
fn threshold_on_many_variables() {
    let f = Filter::new(FilterType::XorThr, &[0, 1]);
    assert_eq!(f.call(&[false; 20]), false);
    let mut round = [false; 20];
    round[13] = true;
    assert_eq!(f.call(&round), true);
    let f = Filter::new(FilterType::XorThr, &[0, 3]);
    round[0] = true;
    assert_eq!(f.call(&round), false);
    round[19] = true;
    assert_eq!(f.call(&round), true);
}

#[test]
fn xor_thr_is_the_parity_of_the_linear_part_xor_the_threshold() {
    for k in 0usize..=4 {
        for m in 1usize..=5 {
            for d in 1usize..=m + 1 {
                let f = Filter::new(FilterType::XorThr, &[k, d]);
                for pattern in 0u32..1 << (k + m) {
                    let round: Vec<bool> = (0..k + m).map(|i| pattern >> i & 1 == 1).collect();
                    let linear = (pattern & ((1 << k) - 1)).count_ones() % 2 == 1;
                    let over = (pattern >> k).count_ones() as usize >= d;
                    assert_eq!(f.call(&round), linear ^ over);
                }
            }
        }
    }
}

#[test]
fn dsm_is_the_parity_of_the_satisfied_monomials() {
    let f = Filter::new(FilterType::DSM, &[1, 2, 1]);
    for pattern in 0u32..256 {
        let x: Vec<bool> = (0..8).map(|i| pattern >> i & 1 == 1).collect();
        let expected = x[0] ^ (x[1] & x[2]) ^ (x[3] & x[4]) ^ (x[5] & x[6] & x[7]);
        assert_eq!(f.call(&x), expected);
    }
}

#[test]
fn dsm_leaves_the_key_bits_after_its_variables_unread() {
    let f = Filter::new(FilterType::DSM, &[1, 1]);
    assert_eq!(f.call(&[true, true, false, true, true]), true);
    assert_eq!(f.call(&[true, true, true, false, false]), false);
}

#[test]
fn dsm_with_degrees_without_monomials() {
    let f = Filter::new(FilterType::DSM, &[0, 0, 1, 0]);
    assert_eq!(f.call(&[true, true, true]), true);
    assert_eq!(f.call(&[true, false, true]), false);
}
