use stellarlib::parser::{
    ClaimPredicate, ParseError, Parser, ScVal, SignerKey, TimeBounds, VecM, XdrParse,
};

const ZERO_KEY_ADDRESS: &str = "GAAAAAAAAAAAAAAAAAAAAAAAAAAAAAAAAAAAAAAAAAAAAAAAAAAAAWHF";

#[test]
fn reads_big_endian_integers() {
    let data = [
        0x00, 0x00, 0x01, 0x02, // u32 258
        0xff, 0xff, 0xff, 0xfe, // i32 -2
        0x00, 0x00, 0x00, 0x01, 0x00, 0x00, 0x00, 0x02, // u64 2^32 + 2
        0x80, 0x00, 0x00, 0x00, 0x00, 0x00, 0x00, 0x00, // i64 min
    ];
    let mut parser = Parser::new(&data);
    assert_eq!(parser.offset(), 0);
    assert_eq!(parser.parse_uint32(), Ok(258));
    assert_eq!(parser.offset(), 4);
    assert_eq!(parser.parse_int32(), Ok(-2));
    assert_eq!(parser.parse_uint64(), Ok(4_294_967_298));
    assert_eq!(parser.parse_int64(), Ok(i64::MIN));
    assert_eq!(parser.offset(), 24);
    assert_eq!(parser.parse_uint32(), Err(ParseError::BufferOverflow));
}

#[test]
fn short_reads_overflow_and_keep_the_position() {
    let data = [1u8, 2, 3];
    let mut parser = Parser::new(&data);
    assert_eq!(parser.parse_uint32(), Err(ParseError::BufferOverflow));
    assert_eq!(parser.parse_int64(), Err(ParseError::BufferOverflow));
    assert_eq!(parser.offset(), 0);
    assert_eq!(parser.read_bytes(3), Ok(&data[..]));
    assert_eq!(parser.offset(), 3);
    assert!(parser.can_read(0));
    assert!(!parser.can_read(1));
}

#[test]
fn fixed_arrays_are_read_whole() {
    let data = [9u8, 8, 7, 6, 5];
    let mut parser = Parser::new(&data);
    assert_eq!(parser.read_array::<2>(), Ok([9u8, 8]));
    assert_eq!(parser.read_array_ref::<3>(), Ok(&[7u8, 6, 5]));
    assert_eq!(parser.read_array::<1>(), Err(ParseError::BufferOverflow));
}

#[test]
fn bool_is_zero_or_one() {
    let data = [0, 0, 0, 0, 0, 0, 0, 1, 0, 0, 0, 2, 0xff, 0xff, 0xff, 0xff];
    let mut parser = Parser::new(&data);
    assert_eq!(parser.parse_bool(), Ok(false));
    assert_eq!(parser.parse_bool(), Ok(true));
    assert_eq!(parser.parse_bool(), Err(ParseError::InvalidType(2)));
    assert_eq!(parser.parse_bool(), Err(ParseError::InvalidType(-1)));
}

#[test]
fn aligned_size_rounds_up_to_four() {
    assert_eq!(Parser::aligned_size(0), Ok(0));
    assert_eq!(Parser::aligned_size(1), Ok(4));
    assert_eq!(Parser::aligned_size(4), Ok(4));
    assert_eq!(Parser::aligned_size(5), Ok(8));
    assert_eq!(Parser::aligned_size(usize::MAX), Err(ParseError::BufferOverflow));
}

#[test]
fn check_padding_wants_zero_bytes() {
    assert_eq!(Parser::check_padding(&[1, 2, 0, 0], 2, 4), Ok(()));
    assert_eq!(Parser::check_padding(&[1, 2, 0, 3], 2, 4), Err(ParseError::InvalidPadding));
    assert_eq!(Parser::check_padding(&[1, 2, 3, 4], 4, 4), Ok(()));
}

#[test]
fn var_opaque_gives_the_bytes_without_padding() {
    let data = [0, 0, 0, 5, b'h', b'e', b'l', b'l', b'o', 0, 0, 0, 0xaa];
    let mut parser = Parser::new(&data);
    assert_eq!(parser.parse_var_opaque(Some(64)), Ok(&b"hello"[..]));
    assert_eq!(parser.offset(), 12);
}

#[test]
fn var_opaque_rejects_nonzero_padding() {
    for at in 9..12 {
        let mut data = [0, 0, 0, 5, b'h', b'e', b'l', b'l', b'o', 0, 0, 0];
        data[at] = 1;
        let mut parser = Parser::new(&data);
        assert_eq!(parser.parse_var_opaque(None), Err(ParseError::InvalidPadding));
    }
}

#[test]
fn var_opaque_checks_the_length() {
    let data = [0, 0, 0, 5, b'h', b'e', b'l', b'l', b'o', 0, 0, 0];
    let mut parser = Parser::new(&data);
    assert_eq!(
        parser.parse_var_opaque(Some(4)),
        Err(ParseError::LengthExceedsMax { actual: 5, max: 4 })
    );
    let mut parser = Parser::new(&data[..11]);
    assert_eq!(parser.parse_var_opaque(Some(5)), Err(ParseError::BufferOverflow));
    let mut parser = Parser::new(&data[..3]);
    assert_eq!(parser.parse_var_opaque(None), Err(ParseError::BufferOverflow));
    let huge = [0xff, 0xff, 0xff, 0xff, 1, 2, 3, 4];
    let mut parser = Parser::new(&huge);
    assert_eq!(parser.parse_var_opaque(None), Err(ParseError::BufferOverflow));
}

#[test]
fn optional_values_follow_a_flag() {
    let data = [
        0, 0, 0, 1, 0, 0, 0, 0, 0, 0, 0, 7, 0, 0, 0, 0, 0, 0, 0, 9, // present: 7..9
        0, 0, 0, 0, // absent
        0, 0, 0, 5, // not a flag
    ];
    let mut parser = Parser::new(&data);
    let present = parser.parse_optional::<TimeBounds>().unwrap();
    assert_eq!(present, Some(TimeBounds { min_time: 7, max_time: 9 }));
    let absent = parser.parse_optional::<TimeBounds>().unwrap();
    assert_eq!(absent, None);
    assert_eq!(parser.parse_optional::<TimeBounds>(), Err(ParseError::InvalidType(5)));
    let mut parser = Parser::new(&data[..8]);
    assert_eq!(parser.parse_optional_u32(), Ok(Some(0)));
    let mut parser = Parser::new(&data[..12]);
    assert_eq!(parser.parse_optional_i64(), Ok(Some(7)));
}

#[test]
fn lists_are_bounded() {
    // three signer keys where at most two are allowed
    let mut data = vec![0, 0, 0, 3];
    for _ in 0..3 {
        data.extend_from_slice(&[0, 0, 0, 0]);
        data.extend_from_slice(&[0u8; 32]);
    }
    let mut parser = Parser::new(&data);
    assert_eq!(
        VecM::<SignerKey, 2>::parse(&mut parser).err(),
        Some(ParseError::LengthExceedsMax { actual: 3, max: 2 })
    );
    data[3] = 2;
    let mut parser = Parser::new(&data);
    let keys = VecM::<SignerKey, 2>::parse(&mut parser).unwrap();
    assert_eq!(keys.len(), 2);
    assert!(!keys.is_empty());
    assert_eq!(keys.as_slice().len(), 2);
    assert_eq!(keys.get(1).to_string(), ZERO_KEY_ADDRESS);
    assert_eq!(parser.offset(), 4 + 2 * 36);
    // the second key is cut short
    let mut parser = Parser::new(&data[..4 + 36 + 20]);
    assert_eq!(VecM::<SignerKey, 2>::parse(&mut parser).err(), Some(ParseError::BufferOverflow));
}

fn nested_lists(levels: usize) -> Vec<u8> {
    let mut data = Vec::new();
    for _ in 0..levels {
        data.extend_from_slice(&[0, 0, 0, 16]); // a list
        data.extend_from_slice(&[0, 0, 0, 1]); // present
        data.extend_from_slice(&[0, 0, 0, 1]); // of one item
    }
    data.extend_from_slice(&[0, 0, 0, 1]); // void
    data
}

#[test]
fn lists_nest_thirty_two_deep() {
    let data = nested_lists(32);
    let mut parser = Parser::new(&data);
    let mut value = ScVal::parse(&mut parser).unwrap();
    assert_eq!(parser.offset(), data.len());
    let mut levels = 0;
    loop {
        match value {
            ScVal::Vec(Some(items)) => {
                assert_eq!(items.len(), 1);
                levels += 1;
                let mut inner = items.as_slice().iter();
                value = match inner.next().unwrap() {
                    ScVal::Vec(Some(_)) | ScVal::Void => {
                        // take the item out by decoding the rest again
                        let mut p = Parser::new(&data[12 * levels..]);
                        for _ in 0..levels {
                            p.enter_recursion().unwrap();
                        }
                        ScVal::parse(&mut p).unwrap()
                    }
                    other => panic!("unexpected item {:?}", other),
                };
            }
            ScVal::Void => break,
            other => panic!("unexpected value {:?}", other),
        }
    }
    assert_eq!(levels, 32);
}

#[test]
fn the_thirty_third_level_is_refused() {
    for levels in [33usize, 34, 35, 60] {
        let data = nested_lists(levels);
        let mut parser = Parser::new(&data);
        assert_eq!(
            ScVal::parse(&mut parser).err(),
            Some(ParseError::MaxDepthExceeded { depth: 33, max: 32 })
        );
    }
}

fn nested_negations(levels: usize) -> Vec<u8> {
    let mut data = Vec::new();
    for _ in 0..levels {
        data.extend_from_slice(&[0, 0, 0, 3]); // not
        data.extend_from_slice(&[0, 0, 0, 1]); // present
    }
    data.extend_from_slice(&[0, 0, 0, 0]); // unconditional
    data
}

#[test]
fn predicates_nest_thirty_two_deep() {
    // 31 negations and the predicate inside them: 32 predicates
    let data = nested_negations(31);
    let mut parser = Parser::new(&data);
    let mut predicate = ClaimPredicate::parse(&mut parser).unwrap();
    assert_eq!(parser.offset(), data.len());
    let mut negations = 0;
    while let ClaimPredicate::Not(inner) = predicate {
        negations += 1;
        predicate = *inner;
    }
    assert_eq!(negations, 31);
    assert_eq!(predicate, ClaimPredicate::Unconditional);

    for levels in [32usize, 35] {
        let data = nested_negations(levels);
        let mut parser = Parser::new(&data);
        assert_eq!(
            ClaimPredicate::parse(&mut parser).err(),
            Some(ParseError::MaxDepthExceeded { depth: 33, max: 32 })
        );
    }
}

#[test]
fn a_negation_must_hold_a_predicate() {
    let data = [0, 0, 0, 3, 0, 0, 0, 0];
    let mut parser = Parser::new(&data);
    assert_eq!(ClaimPredicate::parse(&mut parser).err(), Some(ParseError::BufferOverflow));
}

#[test]
fn the_recursion_guard_counts_to_the_cap() {
    let data = [0u8; 4];
    let mut parser = Parser::new(&data);
    for _ in 0..32 {
        assert_eq!(parser.enter_recursion(), Ok(()));
    }
    assert_eq!(
        parser.enter_recursion(),
        Err(ParseError::MaxDepthExceeded { depth: 33, max: 32 })
    );
    assert_eq!(
        parser.parse_with_depth::<TimeBounds>().err(),
        Some(ParseError::MaxDepthExceeded { depth: 33, max: 32 })
    );
    assert_eq!(parser.offset(), 0);
    parser.exit_recursion();
    assert_eq!(parser.enter_recursion(), Ok(()));
    for _ in 0..40 {
        parser.exit_recursion();
    }
    assert_eq!(parser.parse_with_depth::<TimeBounds>().err(), Some(ParseError::BufferOverflow));
    assert_eq!(parser.enter_recursion(), Ok(()));
}
