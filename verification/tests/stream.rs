use snowsql::pagination::PageState;
use snowsql::paths::{host_url, partition_path, statements_path};
use snowsql::response::error_excerpt;
use snowsql::selectable::{count_statement, parse_count};
use snowsql::{
    Binding, BindingKind, Error, MetaData, Pagination, PartitionInfo, PartitionStep, Partitions,
    RawRow, Response, ResponseInfo, Row,
};

fn raw(texts: &[&str]) -> Row<RawRow> {
    Row(RawRow(texts.iter().map(|t| Some(t.to_string())).collect()))
}

fn response_with_partitions(n: usize, first_rows: Vec<Row<RawRow>>) -> Response<Row<RawRow>> {
    let partition_info = (0..n)
        .map(|i| PartitionInfo { row_count: 1, uncompressed_size: 100 + i })
        .collect();
    Response {
        data: first_rows,
        info: ResponseInfo {
            meta: MetaData {
                num_rows: n,
                format: "jsonv2".to_string(),
                row_type: Vec::new(),
                partition_info,
            },
            code: "090001".to_string(),
            statement_status_url: String::new(),
            request_id: String::new(),
            sql_state: "00000".to_string(),
            message: String::new(),
            statement_handle: "01ad9ea3".to_string(),
        },
    }
}

#[test]
fn partitions_yield_in_index_order_and_exhaust_idempotently() {
    let res = response_with_partitions(3, vec![raw(&["first"])]);
    let mut stream: Partitions<RawRow> = res.partitions();

    // partition 0 comes from the already-held data, without any fetch
    match stream.next_step() {
        PartitionStep::Ready(p) => {
            assert_eq!(p.index, 0);
            assert_eq!(p.total_count, 3);
            assert_eq!(p.data.len(), 1);
            assert_eq!(p.data[0].0[0].as_deref(), Some("first"));
        },
        PartitionStep::Fetch(_) => panic!("partition 0 must not be fetched"),
        PartitionStep::Done => panic!("stream ended early"),
    }

    // then exactly one fetch per pull, in index order 1, 2
    for expected in [1usize, 2] {
        match stream.next_step() {
            PartitionStep::Fetch(i) => {
                assert_eq!(i, expected);
                let p = stream.accept_fetched(vec![raw(&["row"])]);
                assert_eq!(p.index, expected);
                assert_eq!(p.total_count, 3);
                assert_eq!(p.data.len(), 1);
            },
            PartitionStep::Ready(_) => panic!("no further partition is in hand"),
            PartitionStep::Done => panic!("stream ended early"),
        }
    }

    // exhaustion, idempotently
    assert!(matches!(stream.next_step(), PartitionStep::Done));
    assert!(matches!(stream.next_step(), PartitionStep::Done));
}

#[test]
fn failed_fetch_leaves_the_position_for_a_retry() {
    let res = response_with_partitions(2, vec![raw(&["first"])]);
    let mut stream: Partitions<RawRow> = res.partitions();
    match stream.next_step() {
        PartitionStep::Ready(p) => assert_eq!(p.index, 0),
        _ => panic!("partition 0 is in hand"),
    }
    // the fetch for partition 1 fails on the caller's side: nothing was
    // accepted, so the same index is asked for again
    assert!(matches!(stream.next_step(), PartitionStep::Fetch(1)));
    assert!(matches!(stream.next_step(), PartitionStep::Fetch(1)));
    let p = stream.accept_fetched(vec![raw(&["row"])]);
    assert_eq!(p.index, 1);
    assert!(matches!(stream.next_step(), PartitionStep::Done));
}

#[test]
fn pagination_moves_page_by_page() {
    let p = Pagination::default();
    assert_eq!(p.page, 1);
    assert_eq!(p.page_size, 500);
    assert_eq!(p.offset(), 0);

    let p = p.with_page(3).with_page_size(100);
    assert_eq!(p.offset(), 200);

    let n = p.next_page().expect("next page");
    assert_eq!(n.page, 4);
    let b = n.previous_page().expect("previous page");
    assert_eq!(b.page, 3);

    assert!(Pagination { page: 1, page_size: 10 }.previous_page().is_none());
    assert!(Pagination { page: usize::MAX, page_size: 10 }.next_page().is_none());
}

#[test]
fn page_state_stops_on_a_short_page() {
    let mut st = PageState::new(Pagination::default().with_page_size(2));
    assert_eq!(st.plan(), Some(Pagination { page: 1, page_size: 2 }));
    st.advance(2);
    assert_eq!(st.plan(), Some(Pagination { page: 2, page_size: 2 }));
    st.advance(1);
    assert_eq!(st.plan(), None);
    st.advance(2);
    assert_eq!(st.plan(), None);
}

#[test]
fn query_builder_appends_clauses_in_order() {
    let q = snowsql::sql::<RawRow>("SELECT x FROM t")
        .order_by("col")
        .limit(10)
        .offset(20)
        .build_query();
    assert_eq!(q.statement, "SELECT x FROM t ORDER BY 'col' LIMIT 10 OFFSET 20");

    let q = snowsql::sql::<RawRow>("SELECT 1").build_query();
    assert_eq!(q.statement, "SELECT 1");

    let q = snowsql::sql::<RawRow>("SELECT 1").sql("WHERE a = ?").build_query();
    assert_eq!(q.statement, "SELECT 1 WHERE a = ?");
}

#[test]
fn query_builder_carries_its_settings() {
    let q = snowsql::sql::<RawRow>("SELECT 1")
        .with_timeout(30)
        .with_role("READER")
        .with_result_chunk_size(100)
        .with_result_row_count(200)
        .add_binding(Binding { kind: BindingKind::Fixed, value: "23".to_string() })
        .build_query();
    assert_eq!(q.timeout, Some(30));
    assert_eq!(q.role.as_deref(), Some("READER"));
    let p = q.parameters.expect("parameters");
    assert_eq!(p.chunk_size, Some(100));
    assert_eq!(p.rows_per_set, Some(200));
    assert_eq!(q.bindings.len(), 1);
    assert!(matches!(q.bindings[0].kind, BindingKind::Fixed));
    assert_eq!(q.bindings[0].value, "23");
}

#[test]
fn count_query_round_trip() {
    assert_eq!(
        count_statement("SPOTS"),
        "SELECT count(*) FROM SPOTS"
    );
    let ok = vec![RawRow(vec![Some("23".to_string())])];
    assert_eq!(parse_count(&ok).expect("count"), 23);

    let empty: Vec<RawRow> = Vec::new();
    assert!(matches!(parse_count(&empty), Err(Error::Other(_))));
    let no_col = vec![RawRow(Vec::new())];
    assert!(matches!(parse_count(&no_col), Err(Error::Other(_))));
    let null_col = vec![RawRow(vec![None])];
    assert!(matches!(parse_count(&null_col), Err(Error::Other(_))));
    let not_a_number = vec![RawRow(vec![Some("x".to_string())])];
    assert!(matches!(parse_count(&not_a_number), Err(Error::Other(_))));
}

#[test]
fn request_paths_are_assembled_exactly() {
    assert_eq!(
        host_url("fx81169.eu-central-1"),
        "https://fx81169.eu-central-1.snowflakecomputing.com/api/v2/"
    );
    assert_eq!(statements_path("rid-1"), "/statements?requestId=rid-1");
    assert_eq!(partition_path("01ad9ea3", 2), "/statements/01ad9ea3?partition=2");
}

#[test]
fn error_excerpt_skips_lines_and_columns_and_caps_at_two_hundred() {
    let body = b"hello\nworld".to_vec();
    assert_eq!(error_excerpt(&body, 1, 0), body);
    assert_eq!(error_excerpt(&body, 2, 0), b"\nworld".to_vec());
    assert_eq!(error_excerpt(&body, 2, 105), b"ld".to_vec());
    assert_eq!(error_excerpt(&body, 9, 0), Vec::<u8>::new());

    let long = vec![b'a'; 500];
    assert_eq!(error_excerpt(&long, 1, 0).len(), 200);
    assert_eq!(error_excerpt(&long, 1, 350).len(), 200);
    assert_eq!(error_excerpt(&long, 1, 450).len(), 151);
}
