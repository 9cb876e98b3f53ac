use snowsql::record::{decode_record, ColumnType, FieldSpec, Value};
use snowsql::{Error, FromRow, FromRowError, RawRow, RowAccess, UuidVal};

fn cells(texts: &[Option<&str>]) -> Vec<Option<String>> {
    texts.iter().map(|t| t.map(|s| s.to_string())).collect()
}

#[test]
fn cursor_yields_cells_in_order_and_reports_exhaustion() {
    let mut seq = RowAccess::new(cells(&[Some("3"), None, Some("x")]));
    assert_eq!(seq.size_hint(), Some(3));
    let a: u32 = seq.next("a").expect("deserializing");
    assert_eq!(a, 3);
    let b: Option<u32> = seq.next("b").expect("deserializing");
    assert_eq!(b, None);
    let c: String = seq.next("c").expect("deserializing");
    assert_eq!(c, "x");
    assert_eq!(seq.size_hint(), Some(0));
    let end: Result<u32, FromRowError> = seq.next("d");
    assert!(matches!(
        end,
        Err(FromRowError::MissingField { idx: 3, field: "d" })
    ));
    // exhaustion again, not an error of another kind
    let end: Result<u32, FromRowError> = seq.next("d");
    assert!(matches!(end, Err(FromRowError::MissingField { idx: 3, .. })));
}

#[test]
fn cursor_wraps_value_errors_under_the_field_name() {
    let mut seq = RowAccess::new(cells(&[Some("abc")]));
    let r: Result<u32, FromRowError> = seq.next("client_id");
    match r {
        Err(FromRowError::DeserializingField { field, err }) => {
            assert_eq!(field, "client_id");
            assert!(matches!(err, Error::Format { .. }));
        },
        other => panic!("expected a field error, got {:?}", other),
    }
}

#[test]
fn cursor_null_into_required_field_fails() {
    let mut seq = RowAccess::new(cells(&[None]));
    let r: Result<u32, FromRowError> = seq.next("n");
    match r {
        Err(FromRowError::DeserializingField { field, err }) => {
            assert_eq!(field, "n");
            assert!(matches!(err, Error::UnexpectedNull));
        },
        other => panic!("expected a field error, got {:?}", other),
    }
}

#[test]
fn raw_row_takes_every_remaining_cell() {
    let seq = RowAccess::new(cells(&[Some("a"), None, Some("b")]));
    let raw = RawRow::from_cells(seq).expect("deserializing");
    assert_eq!(raw.0.len(), 3);
    assert_eq!(raw.0[0].as_deref(), Some("a"));
    assert_eq!(raw.0[1], None);
    assert_eq!(raw.0[2].as_deref(), Some("b"));

    let raw = RawRow::from_cells(RowAccess::new(Vec::new())).expect("deserializing");
    assert_eq!(raw.0.len(), 0);
}

const THREE_FIELDS: [FieldSpec; 3] = [
    FieldSpec { name: "id", ty: ColumnType::Int, nullable: false },
    FieldSpec { name: "name", ty: ColumnType::Text, nullable: false },
    FieldSpec { name: "permits", ty: ColumnType::Int, nullable: true },
];

#[test]
fn record_decodes_each_field_in_order() {
    let fields = THREE_FIELDS.to_vec();
    let vals = decode_record(&cells(&[Some("3"), Some("Parkando"), None]), &fields)
        .expect("deserializing");
    assert_eq!(vals.len(), 3);
    assert!(matches!(vals[0], Value::Int(3)));
    match &vals[1] {
        Value::Text(t) => assert_eq!(t, "Parkando"),
        other => panic!("expected text, got {:?}", other),
    }
    assert!(matches!(vals[2], Value::Null));
}

#[test]
fn short_row_fails_with_missing_field_at_first_missing_index() {
    let fields = THREE_FIELDS.to_vec();
    let r = decode_record(&cells(&[Some("3")]), &fields);
    assert!(matches!(
        r,
        Err(FromRowError::MissingField { idx: 1, field: "name" })
    ));
    // fail-fast: an earlier field error wins over a later missing cell
    let r = decode_record(&cells(&[Some("x")]), &fields);
    assert!(matches!(
        r,
        Err(FromRowError::DeserializingField { field: "id", .. })
    ));
}

#[test]
fn long_row_is_an_error_not_a_truncation() {
    let fields = THREE_FIELDS.to_vec();
    let r = decode_record(
        &cells(&[Some("3"), Some("Parkando"), Some("1"), Some("extra")]),
        &fields,
    );
    assert!(matches!(r, Err(FromRowError::Custom(_))));
}

#[test]
fn null_into_required_record_field_fails() {
    let fields = THREE_FIELDS.to_vec();
    let r = decode_record(&cells(&[None, Some("Parkando"), None]), &fields);
    match r {
        Err(FromRowError::DeserializingField { field, err }) => {
            assert_eq!(field, "id");
            assert!(matches!(err, Error::UnexpectedNull));
        },
        other => panic!("expected a field error, got {:?}", other),
    }
}

#[derive(Debug)]
#[allow(dead_code)]
struct SnowyRow {
    client_id: u32,
    client_name: String,
    site_id: UuidVal,
    site_name: String,
    num_permits: Option<i64>,
}

impl FromRow for SnowyRow {
    fn from_row(mut seq: RowAccess) -> Result<Self, FromRowError> {
        Ok(SnowyRow {
            client_id: seq.next("client_id")?,
            client_name: seq.next("client_name")?,
            site_id: seq.next("site_id")?,
            site_name: seq.next("site_name")?,
            num_permits: seq.next("num_permits")?,
        })
    }
}

fn json_rows(doc: &str) -> Vec<Vec<Option<String>>> {
    let v: serde_json::Value = serde_json::from_str(doc).expect("deserializing response");
    let data = v.get("data").expect("data").as_array().expect("rows");
    data.iter()
        .map(|row| {
            row.as_array()
                .expect("cells")
                .iter()
                .map(|cell| {
                    if cell.is_null() {
                        None
                    } else {
                        Some(cell.as_str().expect("text cell").to_string())
                    }
                })
                .collect()
        })
        .collect()
}

#[test]
fn deserialize_example() {
    let rows = json_rows(EXAMPLE);
    let data: Vec<SnowyRow> = rows
        .into_iter()
        .map(|cells| SnowyRow::from_row(RowAccess::new(cells)).expect("deserializing response"))
        .collect();

    assert_eq!(data.len(), 2);

    assert_eq!(data[0].client_id, 3);
    assert_eq!(data[0].client_name, "Parkando");
    assert_eq!(
        data[0].site_id,
        UuidVal { bits: 0x7a7cb2b5_8f4b_4f49_9875_32576d808de2 }
    );
    assert_eq!(data[0].num_permits, None);

    assert_eq!(data[1].client_id, 4);
    assert_eq!(data[1].client_name, "OtherCompany");
    assert_eq!(
        data[1].site_id,
        UuidVal { bits: 0x7a9ca2b5_8f4b_4f49_9875_32576d83832a }
    );
    assert_eq!(data[1].num_permits, Some(23));
}

static EXAMPLE: &str = r#"
{
  "resultSetMetaData": {
    "numRows": 2,
    "format": "jsonv2",
    "partitionInfo": [
      {
        "rowCount": 2,
        "uncompressedSize": 201
      }
    ],
    "rowType": [
      {
        "name": "CLIENT_ID",
        "database": "M46_DATA_SHARE_PARKING",
        "schema": "PUBLIC",
        "table": "SPOTS_AND_AGREEMENTS",
        "byteLength": null,
        "type": "fixed",
        "scale": 0,
        "precision": 38,
        "nullable": false,
        "collation": null,
        "length": null
      },
      {
        "name": "CLIENT_NAME",
        "database": "M46_DATA_SHARE_PARKING",
        "schema": "PUBLIC",
        "table": "SPOTS_AND_AGREEMENTS",
        "byteLength": 16777216,
        "type": "text",
        "scale": null,
        "precision": null,
        "nullable": true,
        "collation": null,
        "length": 16777216
      },
      {
        "name": "SITE_ID",
        "database": "M46_DATA_SHARE_PARKING",
        "schema": "PUBLIC",
        "table": "SPOTS_AND_AGREEMENTS",
        "byteLength": 144,
        "type": "text",
        "scale": null,
        "precision": null,
        "nullable": true,
        "collation": null,
        "length": 36
      },
      {
        "name": "SITE_NAME",
        "database": "M46_DATA_SHARE_PARKING",
        "schema": "PUBLIC",
        "table": "SPOTS_AND_AGREEMENTS",
        "byteLength": 16777216,
        "type": "text",
        "scale": null,
        "precision": null,
        "nullable": true,
        "collation": null,
        "length": 16777216
      },
      {
        "name": "NUM_PERMITS",
        "database": "M46_DATA_SHARE_PARKING",
        "schema": "PUBLIC",
        "table": "SPOTS_AND_AGREEMENTS",
        "byteLength": null,
        "type": "fixed",
        "scale": 0,
        "precision": 38,
        "nullable": true,
        "collation": null,
        "length": null
      }
    ]
  },
  "data": [
    [
      "3",
      "Parkando",
      "7a7cb2b5-8f4b-4f49-9875-32576d808de2",
      "Garage 1",
      null
    ],
    [
      "4",
      "OtherCompany",
      "7a9ca2b5-8f4b-4f49-9875-32576d83832a",
      "Garage 2",
      "23"
    ]
  ],
  "code": "090001",
  "statementStatusUrl": "/api/v2/statements/01ad9ea3-3201-dca3-0000-a219000bb062?requestId=0a404baa-8f14-45f1-894c-a4f8ab7ca9de",
  "requestId": "0a404baa-8f14-45f1-894c-a4f8ab7ca9de",
  "sqlState": "00000",
  "statementHandle": "01ad9ea3-3201-dca3-0000-a219000bb062",
  "message": "Statement executed successfully.",
  "createdOn": 1689333321982
}

"#;

#[test]
fn deserialize_weird_string() {
    let s = r#""Göran Perssons väg \"""#;

    // json strings containing '"' cannot be parsed into &str
    assert!(serde_json::from_str::<&str>(s).is_err());

    serde_json::from_str::<String>(s).expect("parsing into String is OK");
    serde_json::from_str::<std::borrow::Cow<'_, str>>(s).expect("so are Cows");
}
