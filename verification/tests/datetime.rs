use snowsql::datetime::{
    decode_date, decode_timestamp, decode_timestamp_with, encode_date, encode_timestamp,
    OffsetPolicy, MAX_TS,
};
use snowsql::{Date, FromValue, Timestamp};

#[test]
fn datetime_deserialize_date_time() {
    assert_eq!(
        Timestamp::from_civil(2024, 10, 17, 12, 3, 22, 422528000, 0),
        Timestamp::from_optional_value(Some("1729166602.422528000")).expect("deserializing")
    );

    assert_eq!(
        Timestamp::from_civil(2024, 10, 18, 10, 54, 22, 912451000, 0),
        Timestamp::from_optional_value(Some("1729248862.912451000")).expect("deserializing")
    );
}

#[test]
fn deserialize_date_time() {
    assert_eq!(
        Timestamp::from_civil(2024, 10, 17, 12, 3, 22, 422528000, 0),
        Timestamp::from_value("1729166602.422528000").expect("deserializing")
    );

    assert_eq!(
        Timestamp::from_civil(2024, 10, 18, 10, 54, 22, 912451000, 0),
        Timestamp::from_value("1729248862.912451000").expect("deserializing")
    );

    assert_eq!(
        Timestamp::from_civil(2024, 2, 6, 14, 5, 30, 0, 0),
        Timestamp::from_value("1707228330 1440").expect("deserializing")
    );

    assert_eq!(
        Timestamp::from_civil(2024, 11, 14, 8, 59, 19, 273124000, 0),
        Timestamp::from_value("1731574759.273124000 1440").expect("deserializing")
    );
}

/// When encountering an instant that cannot fit (i.e. after the year 9999),
/// it is truncated to the last second of 9999-12-31.
#[test]
fn deserialize_too_large_datetime() {
    assert_eq!(
        Timestamp::from_civil(9999, 12, 31, 23, 59, 59, 0, 0),
        Timestamp::from_value("6318666835200 1440").expect("deserializing")
    );
}

#[test]
fn deserialize_due_to_dates_being_one_off() {
    assert_eq!(
        Timestamp::from_civil(2022, 2, 25, 9, 16, 1, 900368000, 0),
        Timestamp::from_value("1645780561.900368000 1440").expect("deserializing")
    );

    assert_eq!(
        Timestamp::from_civil(2022, 2, 25, 9, 22, 22, 957985000, 0),
        Timestamp::from_value("1645780942.957985000 1440").expect("deserializing")
    );

    assert_eq!(
        Timestamp::from_civil(2022, 2, 3, 0, 0, 0, 0, 0),
        Timestamp::from_value("1643846400.000000000 1440").expect("deserializing")
    );

    assert_eq!(
        Timestamp::from_civil(2025, 1, 31, 22, 59, 59, 0, 0),
        Timestamp::from_value("1738364399.000000000 1440").expect("deserializing")
    );
}

#[test]
fn far_future_clamps_to_max() {
    let t = decode_timestamp("253402300800").expect("deserializing");
    assert_eq!(t.secs, MAX_TS);
    assert_eq!(t.nanos, 0);
    assert_eq!(t.offset_secs, 0);
    assert_eq!(MAX_TS, 253402300799);
}

#[test]
fn fraction_is_padded_and_truncated_to_nanoseconds() {
    let t = decode_timestamp("5.1").expect("deserializing");
    assert_eq!(t.secs, 5);
    assert_eq!(t.nanos, 100_000_000);

    let t = decode_timestamp("5.1234567899").expect("deserializing");
    assert_eq!(t.nanos, 123_456_789);

    let t = decode_timestamp("5.000000001").expect("deserializing");
    assert_eq!(t.nanos, 1);
}

#[test]
fn offset_minutes_are_normalized_modulo_1440() {
    let t = decode_timestamp("0 1440").expect("deserializing");
    assert_eq!(t.offset_secs, 0);

    let t = decode_timestamp("0 1500").expect("deserializing");
    assert_eq!(t.offset_secs, 3600);

    let t = decode_timestamp("0 -1500").expect("deserializing");
    assert_eq!(t.offset_secs, -3600);

    let t = decode_timestamp("0 960").expect("deserializing");
    assert_eq!(t.offset_secs, 960 * 60);
}

#[test]
fn verbatim_offset_policy_applies_minutes_as_sent() {
    let t = decode_timestamp_with("0 960", OffsetPolicy::Verbatim).expect("deserializing");
    assert_eq!(t.offset_secs, 960 * 60);

    let t = decode_timestamp_with("0 -60", OffsetPolicy::Verbatim).expect("deserializing");
    assert_eq!(t.offset_secs, -3600);

    // a day or more of offset is a semantic error under this policy
    assert!(matches!(
        decode_timestamp_with("0 1440", OffsetPolicy::Verbatim),
        Err(snowsql::Error::Value { .. })
    ));
    assert!(matches!(
        decode_timestamp_with("0 -1440", OffsetPolicy::Verbatim),
        Err(snowsql::Error::Value { .. })
    ));
}

#[test]
fn timestamp_rejects_malformed_text() {
    assert!(matches!(
        decode_timestamp("abc"),
        Err(snowsql::Error::Format { .. })
    ));
    assert!(matches!(
        decode_timestamp("1."),
        Err(snowsql::Error::Format { .. })
    ));
    assert!(matches!(
        decode_timestamp(""),
        Err(snowsql::Error::Format { .. })
    ));
    // offset minutes beyond i32
    assert!(matches!(
        decode_timestamp("1707228330 99999999999"),
        Err(snowsql::Error::Format { .. })
    ));
    // seconds below the representable range
    assert!(matches!(
        decode_timestamp("-999999999999999"),
        Err(snowsql::Error::Format { .. })
    ));
}

#[test]
fn date_is_days_since_epoch() {
    assert_eq!(
        Date::from_civil(2020, 1, 1),
        decode_date("18262").expect("deserializing")
    );
    assert_eq!(decode_date("0").expect("deserializing").days, 0);
    assert_eq!(decode_date("-1").expect("deserializing").days, -1);
    assert_eq!(Date::from_civil(1970, 1, 1).days, 0);
    assert_eq!(Date::from_civil(1969, 12, 31).days, -1);
}

#[test]
fn date_rejects_fractional_days() {
    assert!(matches!(
        decode_date("18262.5"),
        Err(snowsql::Error::Format { .. })
    ));
    assert!(matches!(decode_date(""), Err(snowsql::Error::Format { .. })));
}

#[test]
fn date_wire_round_trip() {
    for days in [-719162i64, -1, 0, 1, 18262, 2932896] {
        let d = Date { days };
        let wire = encode_date(&d);
        assert_eq!(d, decode_date(wire.as_str()).expect("deserializing"));
    }
}

#[test]
fn timestamp_wire_round_trip() {
    let samples = [
        Timestamp { secs: 0, nanos: 0, offset_secs: 0 },
        Timestamp { secs: 1729166602, nanos: 422528000, offset_secs: 0 },
        Timestamp { secs: -62135596800, nanos: 1, offset_secs: -3600 },
        Timestamp { secs: MAX_TS, nanos: 999999999, offset_secs: 86340 },
    ];
    for t in samples {
        let wire = encode_timestamp(&t);
        assert_eq!(t, decode_timestamp(wire.as_str()).expect("deserializing"));
    }
}
