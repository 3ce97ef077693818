use eikon_downloader::datagrid::{self, DgData, DgHeaderCell, DgResult};
use eikon_downloader::table::Table;
use eikon_downloader::timeseries::{self, TsBody, TsRicGroup};
use eikon_downloader::utils::{EkError, EkResults, Settings};

fn header(display: &str, field: Option<&str>) -> DgHeaderCell {
    DgHeaderCell {
        display_name: display.to_string(),
        field: field.map(|s| s.to_string()),
    }
}

fn rows(rs: &[&[&str]]) -> Vec<Vec<String>> {
    rs.iter()
        .map(|r| r.iter().map(|c| c.to_string()).collect())
        .collect()
}

fn column_values(t: &Table, name: &str) -> Vec<Option<String>> {
    for c in &t.columns {
        if c.name == name {
            return c.values.clone();
        }
    }
    panic!("no column named {}", name);
}

#[test]
fn datagrid_merge_reads_headers_rows_and_nulls() {
    // The first response has no headers; the second names the columns.
    let r1 = DgData {
        headers: None,
        rows: rows(&[&["\"IBM.N\"", "12"]]),
    };
    let r2 = DgData {
        headers: Some(vec![header("\"Instrument\"", None), header("\"Close\"", Some("\"TR.CLOSE\""))]),
        // The second row is short: the missing cell reads as a JSON null.
        rows: rows(&[&["\"AAPL.O\"", "34"], &["\"MSFT.O\""]]),
    };
    let t = datagrid::to_dataframe(vec![r1, r2], false).unwrap();
    assert_eq!(t.columns.len(), 2);
    assert_eq!(t.columns[0].name, "Instrument");
    assert_eq!(t.columns[1].name, "Close");
    assert_eq!(
        column_values(&t, "Instrument"),
        vec![
            Some("IBM.N".to_string()),
            Some("AAPL.O".to_string()),
            Some("MSFT.O".to_string())
        ]
    );
    assert_eq!(
        column_values(&t, "Close"),
        vec![
            Some("12".to_string()),
            Some("34".to_string()),
            Some("null".to_string())
        ]
    );
}

#[test]
fn datagrid_merge_can_use_raw_field_codes() {
    let r = DgData {
        headers: Some(vec![header("\"Instrument\"", None), header("\"Close\"", Some("\"TR.CLOSE\""))]),
        rows: rows(&[&["\"IBM.N\"", "12"]]),
    };
    let t = datagrid::to_dataframe(vec![r], true).unwrap();
    // Field codes name the columns, quote-stripped like display names;
    // a header without a field code falls back to the display name.
    assert_eq!(t.columns[0].name, "Instrument");
    assert_eq!(t.columns[1].name, "TR.CLOSE");
}

#[test]
fn datagrid_merge_without_headers_fails() {
    let r = DgData {
        headers: None,
        rows: rows(&[&["1"]]),
    };
    let err = datagrid::to_dataframe(vec![r], false).unwrap_err();
    assert_eq!(err.describe(), "No headers returned: Could not build headers");
}

#[test]
fn datagrid_merge_with_duplicate_headers_fails() {
    let r = DgData {
        headers: Some(vec![header("\"X\"", None), header("\"X\"", None)]),
        rows: rows(&[]),
    };
    assert!(matches!(
        datagrid::to_dataframe(vec![r], false),
        Err(EkError::NoDataFrame(_))
    ));
}

#[test]
fn datagrid_results_raw_mode_returns_payload_texts() {
    let results = vec![
        DgResult {
            raw: "{\"responses\":1}".to_string(),
            data: DgData { headers: None, rows: vec![] },
        },
        DgResult {
            raw: "{\"responses\":2}".to_string(),
            data: DgData { headers: None, rows: vec![] },
        },
    ];
    let settings = Settings { raw: true, field_name: false };
    match datagrid::merge_results(results, &settings) {
        EkResults::Raw(v) => {
            assert_eq!(v, vec!["{\"responses\":1}".to_string(), "{\"responses\":2}".to_string()])
        },
        _ => panic!("expected raw results"),
    }
}

#[test]
fn datagrid_results_empty_is_no_data() {
    let settings = Settings { raw: false, field_name: false };
    match datagrid::merge_results(vec![], &settings) {
        EkResults::Fail(e) => {
            assert_eq!(e.describe(), "No data returned: No data returned from Refinitiv")
        },
        _ => panic!("expected an error"),
    }
}

fn normal_group(ric: &str, fields: &[&str], data: &[&[&str]]) -> TsRicGroup {
    TsRicGroup {
        status: "\"Normal\"".to_string(),
        ric: ric.to_string(),
        field_names: fields.iter().map(|f| f.to_string()).collect(),
        rows: rows(data),
    }
}

#[test]
fn timeseries_merge_excludes_abnormal_groups_without_failing() {
    let good = normal_group("\"IBM.N\"", &["\"CLOSE\""], &[&["101"], &["102"]]);
    let bad = TsRicGroup {
        status: "\"Error\"".to_string(),
        ric: "\"BAD.N\"".to_string(),
        field_names: vec!["\"CLOSE\"".to_string()],
        rows: rows(&[&["999"]]),
    };
    match timeseries::merge_results(vec![TsBody::Data(vec![good, bad])]) {
        EkResults::DF(t) => {
            assert_eq!(
                column_values(&t, "RIC"),
                vec![Some("IBM.N".to_string()), Some("IBM.N".to_string())]
            );
            assert_eq!(
                column_values(&t, "CLOSE"),
                vec![Some("101".to_string()), Some("102".to_string())]
            );
        },
        _ => panic!("expected a table"),
    }
}

#[test]
fn timeseries_merge_of_one_chunk_returns_it_unchanged() {
    let g = normal_group("\"IBM.N\"", &["\"CLOSE\""], &[&["101"]]);
    match timeseries::merge_results(vec![TsBody::Data(vec![g])]) {
        EkResults::DF(t) => {
            assert_eq!(t.columns.len(), 2);
            assert_eq!(column_values(&t, "CLOSE"), vec![Some("101".to_string())]);
            assert_eq!(column_values(&t, "RIC"), vec![Some("IBM.N".to_string())]);
        },
        _ => panic!("expected a table"),
    }
}

#[test]
fn timeseries_merge_same_schema_sums_rows() {
    let a = normal_group("\"A\"", &["\"CLOSE\""], &[&["1"], &["2"]]);
    let b = normal_group("\"B\"", &["\"CLOSE\""], &[&["3"]]);
    match timeseries::merge_results(vec![
        TsBody::Data(vec![a]),
        TsBody::Data(vec![b]),
    ]) {
        EkResults::DF(t) => {
            assert_eq!(
                column_values(&t, "CLOSE"),
                vec![Some("1".to_string()), Some("2".to_string()), Some("3".to_string())]
            );
            assert_eq!(
                column_values(&t, "RIC"),
                vec![Some("A".to_string()), Some("A".to_string()), Some("B".to_string())]
            );
        },
        _ => panic!("expected a table"),
    }
}

#[test]
fn timeseries_merge_pads_the_narrower_schema() {
    // First chunk: two fields; second chunk: one field. The wider
    // schema wins and the narrower chunk's missing column is null.
    let a = normal_group("\"A\"", &["\"CLOSE\"", "\"OPEN\""], &[&["1", "10"]]);
    let b = normal_group("\"B\"", &["\"CLOSE\""], &[&["3"]]);
    match timeseries::merge_results(vec![
        TsBody::Data(vec![a]),
        TsBody::Data(vec![b]),
    ]) {
        EkResults::DF(t) => {
            assert_eq!(t.columns.len(), 3);
            assert_eq!(
                column_values(&t, "CLOSE"),
                vec![Some("1".to_string()), Some("3".to_string())]
            );
            assert_eq!(column_values(&t, "OPEN"), vec![Some("10".to_string()), None]);
            assert_eq!(
                column_values(&t, "RIC"),
                vec![Some("A".to_string()), Some("B".to_string())]
            );
        },
        _ => panic!("expected a table"),
    }
}

#[test]
fn timeseries_merge_wider_later_chunk_becomes_the_base() {
    let a = normal_group("\"A\"", &["\"CLOSE\""], &[&["1"]]);
    let b = normal_group("\"B\"", &["\"CLOSE\"", "\"OPEN\""], &[&["3", "30"]]);
    match timeseries::merge_results(vec![
        TsBody::Data(vec![a]),
        TsBody::Data(vec![b]),
    ]) {
        EkResults::DF(t) => {
            assert_eq!(t.columns.len(), 3);
            // The wider (second) table is the base: its rows come first.
            assert_eq!(
                column_values(&t, "CLOSE"),
                vec![Some("3".to_string()), Some("1".to_string())]
            );
            assert_eq!(column_values(&t, "OPEN"), vec![Some("30".to_string()), None]);
        },
        _ => panic!("expected a table"),
    }
}

#[test]
fn timeseries_merge_equal_width_name_mismatch_fails() {
    let a = normal_group("\"A\"", &["\"CLOSE\""], &[&["1"]]);
    let b = normal_group("\"B\"", &["\"OPEN\""], &[&["3"]]);
    match timeseries::merge_results(vec![
        TsBody::Data(vec![a]),
        TsBody::Data(vec![b]),
    ]) {
        EkResults::Fail(e) => {
            assert_eq!(e.describe(), "Error: Could not Select columns (vstack_diag)")
        },
        _ => panic!("expected an error"),
    }
}

#[test]
fn timeseries_malformed_body_fails_the_call() {
    match timeseries::merge_results(vec![TsBody::Malformed]) {
        EkResults::Fail(e) => {
            assert_eq!(e.describe(), "Error: Could not turn tsData into array")
        },
        _ => panic!("expected an error"),
    }
}

#[test]
fn timeseries_no_normal_group_anywhere_is_no_headers() {
    let bad = TsRicGroup {
        status: "\"Error\"".to_string(),
        ric: "\"BAD.N\"".to_string(),
        field_names: vec![],
        rows: vec![],
    };
    match timeseries::merge_results(vec![TsBody::Data(vec![bad])]) {
        EkResults::Fail(e) => {
            assert_eq!(e.describe(), "No headers returned: Could not build headers")
        },
        _ => panic!("expected an error"),
    }
}

#[test]
fn timeseries_empty_results_are_no_data() {
    match timeseries::merge_results(vec![]) {
        EkResults::Fail(e) => {
            assert_eq!(e.describe(), "No data returned: No data returned from Refinitiv")
        },
        _ => panic!("expected an error"),
    }
}

#[test]
fn timeseries_short_rows_read_as_null_text() {
    let g = normal_group("\"A\"", &["\"CLOSE\"", "\"OPEN\""], &[&["1"]]);
    match timeseries::merge_results(vec![TsBody::Data(vec![g])]) {
        EkResults::DF(t) => {
            assert_eq!(column_values(&t, "OPEN"), vec![Some("null".to_string())]);
        },
        _ => panic!("expected a table"),
    }
}
