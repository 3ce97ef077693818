use eikon_downloader::table::{Column, Table};
use eikon_downloader::utils::{clean_string, field_builder, EkError, Fields};

fn col(name: &str, vals: &[Option<&str>]) -> Column {
    Column {
        name: name.to_string(),
        values: vals.iter().map(|v| v.map(|s| s.to_string())).collect(),
    }
}

fn assert_table_eq(a: &Table, b: &Table) {
    assert_eq!(a.columns.len(), b.columns.len());
    for (ca, cb) in a.columns.iter().zip(b.columns.iter()) {
        assert_eq!(ca.name, cb.name);
        assert_eq!(ca.values, cb.values);
    }
}

#[test]
fn test_clean_string() {
    let s = String::from("\"hello\"");
    let res = clean_string(s);
    assert_eq!(res, "hello");
}

#[test]
fn clean_string_keeps_inner_text() {
    assert_eq!(clean_string(String::new()), "");
    assert_eq!(clean_string("no quotes".to_string()), "no quotes");
    assert_eq!(clean_string("\"\"\"".to_string()), "");
}

#[test]
fn test_field_builder() {
    let field = vec![(
        "TR.GrossProfit".to_string(),
        vec![
            ("Scale".to_string(), "6".to_string()),
            ("Curn".to_string(), "EUR".to_string()),
        ],
    )];
    let answer = r#"[{"name":"TR.GrossProfit","parameters":{"Scale":"6","Curn":"EUR"}}]"#;
    let res = field_builder(Fields::Params(field));
    assert_eq!(res, answer);

    let field = vec![
        (
            "TR.GrossProfit".to_string(),
            vec![
                ("Scale".to_string(), "6".to_string()),
                ("Curn".to_string(), "EUR".to_string()),
            ],
        ),
        (
            "TR.CLOSE".to_string(),
            vec![("Curn".to_string(), "EUR".to_string())],
        ),
    ];
    let answer = r#"[{"name":"TR.GrossProfit","parameters":{"Scale":"6","Curn":"EUR"}},{"name":"TR.CLOSE","parameters":{"Curn":"EUR"}}]"#;
    let res = field_builder(Fields::Params(field));
    assert_eq!(res, answer);

    let fields = vec!["TR.GrossProfit".to_string(), "TR.CLOSE".to_string()];
    let answer = r#"[{"name":"TR.GrossProfit"},{"name":"TR.CLOSE"}]"#;
    let res = field_builder(Fields::NoParams(fields));
    assert_eq!(res, answer);
}

#[test]
fn field_builder_escapes_values() {
    let res = field_builder(Fields::NoParams(vec!["a\"b".to_string()]));
    assert_eq!(res, r#"[{"name":"a\"b"}]"#);
}

#[test]
fn test_vstack_diag() {
    let long_df = Table {
        columns: vec![
            col("one_column", &[Some("test"), Some("test2")]),
            col("two_column", &[Some("test1"), Some("test4")]),
            col("three_column", &[Some("test5"), Some("test1")]),
            col("four_column", &[Some("test10"), Some("test12")]),
        ],
    };
    let short_df = Table {
        columns: vec![
            col("three_column", &[Some("test7")]),
            col("one_column", &[Some("test8")]),
        ],
    };
    let res_df = Table {
        columns: vec![
            col("one_column", &[Some("test"), Some("test2"), Some("test8")]),
            col("two_column", &[Some("test1"), Some("test4"), None]),
            col("three_column", &[Some("test5"), Some("test1"), Some("test7")]),
            col("four_column", &[Some("test10"), Some("test12"), None]),
        ],
    };

    let attempt = eikon_downloader::table::vstack_diag(&long_df, short_df).unwrap();

    assert_table_eq(&res_df, &attempt);
}

#[test]
fn vstack_diag_discards_columns_absent_from_the_base() {
    let base = Table {
        columns: vec![col("a", &[Some("1")])],
    };
    let other = Table {
        columns: vec![col("a", &[Some("2")]), col("b", &[Some("9")])],
    };
    let res = eikon_downloader::table::vstack_diag(&base, other).unwrap();
    assert_eq!(res.columns.len(), 1);
    assert_eq!(res.columns[0].name, "a");
    assert_eq!(
        res.columns[0].values,
        vec![Some("1".to_string()), Some("2".to_string())]
    );
}

#[test]
fn error_texts_carry_their_kind() {
    assert_eq!(
        EkError::NoData("x".to_string()).describe(),
        "No data returned: x"
    );
    assert_eq!(
        EkError::NoHeaders("x".to_string()).describe(),
        "No headers returned: x"
    );
    assert_eq!(
        EkError::NoDataFrame("x".to_string()).describe(),
        "No dataframe returned: x"
    );
    assert_eq!(
        EkError::AuthError("x".to_string()).describe(),
        "Authentication error: x"
    );
    assert_eq!(
        EkError::ConnectionError("x".to_string()).describe(),
        "Connection error: x"
    );
    assert_eq!(
        EkError::ThreadError("x".to_string()).describe(),
        "Thread error: x"
    );
    assert_eq!(EkError::DateError("x".to_string()).describe(), "Date error: x");
    assert_eq!(EkError::Error("x".to_string()).describe(), "Error: x");
}

#[test]
fn chunk_identifiers_partitions_in_order() {
    let items: Vec<String> = ["a", "b", "c", "d", "e"].iter().map(|s| s.to_string()).collect();
    let groups = eikon_downloader::utils::chunk_identifiers(&items, 2);
    assert_eq!(groups.len(), 3);
    assert_eq!(groups[0], vec!["a".to_string(), "b".to_string()]);
    assert_eq!(groups[1], vec!["c".to_string(), "d".to_string()]);
    assert_eq!(groups[2], vec!["e".to_string()]);
    let flat: Vec<String> = groups.concat();
    assert_eq!(flat, items);
}
