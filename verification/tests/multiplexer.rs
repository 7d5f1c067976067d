use filip::Multiplexer;

#[test]
fn clear_key_bits() {
    assert_eq!(<bool as Multiplexer>::zero(None, None, None, None), false);
    assert_eq!(<bool as Multiplexer>::one(None, None, None, None), true);
    assert_eq!(<bool as Multiplexer>::zero_with_fhe_parameters(None, None, None, None), false);
    assert_eq!(<bool as Multiplexer>::one_with_fhe_parameters(None, None, None, None), true);
    assert_eq!(<bool as Multiplexer>::descriptor(), "clear");
}

#[test]
fn clear_mux_is_a_branch() {
    for o1 in [false, true] {
        for o0 in [false, true] {
            assert_eq!(true.mux(&o1, &o0), o1);
            assert_eq!(false.mux(&o1, &o0), o0);
        }
    }
}

#[test]
fn clear_and_not_as_bit() {
    for sel in [false, true] {
        for bit in [false, true] {
            assert_eq!(sel.and(&bit), sel && bit);
        }
        assert_eq!(Multiplexer::not(&sel), !sel);
        assert_eq!(sel.as_bit(), sel);
        assert!(sel.same_shape(&!sel));
        let mut negated = sel;
        Multiplexer::not_inplace(&mut negated);
        assert_eq!(negated, !sel);
        assert_eq!(Multiplexer::not(&negated).as_bit(), !negated.as_bit());
    }
}
