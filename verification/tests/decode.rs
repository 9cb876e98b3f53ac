use snowsql::numstr::{i64_to_string, u64_to_string};
use snowsql::{Error, FromValue, UuidVal};

#[test]
fn absent_cell_into_required_type_is_unexpected_null() {
    assert!(matches!(
        u32::from_optional_value(None),
        Err(Error::UnexpectedNull)
    ));
    assert!(matches!(
        String::from_optional_value(None),
        Err(Error::UnexpectedNull)
    ));
    assert!(matches!(
        bool::from_optional_value(None),
        Err(Error::UnexpectedNull)
    ));
}

#[test]
fn absent_cell_into_optional_type_is_empty() {
    assert!(matches!(Option::<u32>::from_optional_value(None), Ok(None)));
    assert!(matches!(
        Option::<String>::from_optional_value(None),
        Ok(None)
    ));
    // any other error still propagates
    assert!(matches!(
        Option::<u32>::from_optional_value(Some("abc")),
        Err(Error::Format { .. })
    ));
    assert_eq!(
        Option::<u32>::from_optional_value(Some("23")).expect("deserializing"),
        Some(23)
    );
}

#[test]
fn integers_parse_canonically() {
    assert_eq!(u8::from_value("255").expect("deserializing"), 255u8);
    assert_eq!(u16::from_value("65535").expect("deserializing"), 65535u16);
    assert_eq!(u32::from_value("+23").expect("deserializing"), 23u32);
    assert_eq!(
        u64::from_value("18446744073709551615").expect("deserializing"),
        u64::MAX
    );
    assert_eq!(i16::from_value("-32768").expect("deserializing"), i16::MIN);
    assert_eq!(i32::from_value("-0").expect("deserializing"), 0i32);
    assert_eq!(
        i64::from_value("-9223372036854775808").expect("deserializing"),
        i64::MIN
    );
    assert_eq!(
        i128::from_value("-170141183460469231731687303715884105728").expect("deserializing"),
        i128::MIN
    );
    assert_eq!(
        u128::from_value("340282366920938463463374607431768211455").expect("deserializing"),
        u128::MAX
    );
    assert_eq!(usize::from_value("500").expect("deserializing"), 500usize);
    assert_eq!(isize::from_value("-500").expect("deserializing"), -500isize);
}

#[test]
fn integers_reject_malformed_and_out_of_range_text() {
    assert!(matches!(u8::from_value("256"), Err(Error::Format { .. })));
    assert!(matches!(u8::from_value("-1"), Err(Error::Format { .. })));
    assert!(matches!(u64::from_value(""), Err(Error::Format { .. })));
    assert!(matches!(u64::from_value("+"), Err(Error::Format { .. })));
    assert!(matches!(u64::from_value("1 2"), Err(Error::Format { .. })));
    assert!(matches!(
        u64::from_value("18446744073709551616"),
        Err(Error::Format { .. })
    ));
    assert!(matches!(
        i64::from_value("-9223372036854775809"),
        Err(Error::Format { .. })
    ));
    assert!(matches!(i32::from_value("1.0"), Err(Error::Format { .. })));
    // the original wire text is kept in the error
    match u32::from_value("not a number") {
        Err(Error::Format { given, .. }) => assert_eq!(given, "not a number"),
        other => panic!("expected a Format error, got {:?}", other),
    }
}

#[test]
fn bool_parses_true_and_false_only() {
    assert_eq!(bool::from_value("true").expect("deserializing"), true);
    assert_eq!(bool::from_value("false").expect("deserializing"), false);
    assert!(matches!(bool::from_value("True"), Err(Error::Format { .. })));
    assert!(matches!(bool::from_value("1"), Err(Error::Format { .. })));
}

#[test]
fn text_decodes_to_itself() {
    assert_eq!(
        String::from_value("Göran Perssons väg \"").expect("deserializing"),
        "Göran Perssons väg \""
    );
}

#[test]
fn uuid_decodes_to_its_bits() {
    let v = UuidVal::from_value("7a7cb2b5-8f4b-4f49-9875-32576d808de2").expect("deserializing");
    assert_eq!(v.bits, 0x7a7cb2b5_8f4b_4f49_9875_32576d808de2);
    assert!(matches!(
        UuidVal::from_value("not a uuid"),
        Err(Error::Format { .. })
    ));
}

#[test]
fn uuid_wire_round_trip() {
    let bits: u128 = 0x7a9ca2b5_8f4b_4f49_9875_32576d83832a;
    let wire = uuid::Uuid::from_u128(bits).hyphenated().to_string();
    let v = UuidVal::from_value(wire.as_str()).expect("deserializing");
    assert_eq!(v.bits, bits);
}

#[test]
fn integer_wire_round_trip() {
    for n in [0u64, 1, 9, 10, 500, u64::MAX] {
        let wire = u64_to_string(n);
        assert_eq!(u64::from_value(wire.as_str()).expect("deserializing"), n);
    }
    for v in [i64::MIN, -10, -1, 0, 1, i64::MAX] {
        let wire = i64_to_string(v);
        assert_eq!(i64::from_value(wire.as_str()).expect("deserializing"), v);
    }
}

#[test]
fn bool_and_text_wire_round_trip() {
    for b in [true, false] {
        let wire = if b { "true" } else { "false" };
        assert_eq!(bool::from_value(wire).expect("deserializing"), b);
    }
    let s = String::from_value("select *").expect("deserializing");
    assert_eq!(s, "select *");
}
