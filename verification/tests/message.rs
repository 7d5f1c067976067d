use filip::message::{decode_message, half_weight, message_bits, power_of_two};
use filip::SystemParameters;

#[test]
fn bits_come_most_significant_first() {
    assert_eq!(message_bits(0b101, 3), vec![true, false, true]);
    assert_eq!(message_bits(0b0110, 4), vec![false, true, true, false]);
    assert_eq!(message_bits(0xFF, 2), vec![true, true]);
    assert_eq!(message_bits(0x80, 8), vec![true, false, false, false, false, false, false, false]);
    assert_eq!(message_bits(7, 0), Vec::<bool>::new());
}

#[test]
fn powers_of_two() {
    assert_eq!(power_of_two(0), 1);
    assert_eq!(power_of_two(10), 1024);
    assert_eq!(power_of_two(63), 1u64 << 63);
    assert_eq!(half_weight(0), 1u64 << 61);
    assert_eq!(half_weight(61), 1);
}

#[test]
fn messages_are_read_to_the_nearest_integer() {
    // Three bits: the integer m is held as m * 2^60.
    for m in 0u64..8 {
        let held = m << 60;
        assert_eq!(decode_message(held, 3), m);
        assert_eq!(decode_message(held.wrapping_add((1 << 59) - 1), 3), m);
        assert_eq!(decode_message(held.wrapping_sub(1 << 59), 3), m);
        assert_eq!(decode_message(held.wrapping_add(1 << 59), 3), (m + 1) % 8);
    }
    assert_eq!(decode_message(u64::MAX, 1), 0);
    assert_eq!(decode_message(1 << 62, 1), 1);
    assert_eq!(decode_message(0, 0), 0);
}

#[test]
fn a_message_assembled_from_its_bits_is_read_again() {
    for nb_bits in 1usize..=8 {
        for m in 0u16..1 << nb_bits {
            let bits = message_bits(m as u8, nb_bits);
            let held = bits
                .iter()
                .enumerate()
                .filter(|(_, b)| **b)
                .fold(0u64, |t, (p, _)| t.wrapping_add(2 * half_weight(p)));
            assert_eq!(decode_message(held, nb_bits), m as u64);
        }
    }
}

#[test]
fn flags_choose_parameter_sets() {
    assert_eq!(SystemParameters::from_flag("FiLIP_144"), Some(SystemParameters::n144));
    assert_eq!(SystemParameters::from_flag("FiLIP_1216"), Some(SystemParameters::n1216));
    assert_eq!(SystemParameters::from_flag("FiLIP_1280"), Some(SystemParameters::n1280));
    assert_eq!(SystemParameters::from_flag("FiLIP 144"), None);
    assert_eq!(SystemParameters::from_flag("FiLIP-144"), None);
    assert_eq!(SystemParameters::from_flag("filip_144"), None);
    assert_eq!(SystemParameters::from_flag(""), None);
}
