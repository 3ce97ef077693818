use eikon_downloader::datagrid;
use eikon_downloader::datagrid::Frequency;
use eikon_downloader::timeseries::{self, Interval};

const DAY: i64 = 86400;

#[test]
fn daily_two_identifiers_ten_days_is_one_chunk() {
    let rics = vec!["A".to_string(), "B".to_string()];
    let fields = vec!["close".to_string()];
    let payloads = timeseries::groups(rics, fields, 0, 10 * DAY, Interval::Daily);
    assert_eq!(payloads.len(), 1);
    assert_eq!(
        payloads[0],
        r#"{"rics":["A","B"],"fields":["close"],"interval":"daily","startdate":"1970-01-01T00:00:00","enddate":"1970-01-11T00:00:00"}"#
    );
}

#[test]
fn rows_estimate_matches_the_formulas() {
    assert_eq!(timeseries::rows_estimate(&Interval::Daily, 10 * DAY), 7);
    assert_eq!(timeseries::rows_estimate(&Interval::Weekly, 10 * DAY), 1);
    assert_eq!(timeseries::rows_estimate(&Interval::Monthly, 40 * DAY), 2);
    assert_eq!(timeseries::rows_estimate(&Interval::Quarterly, 200 * DAY), 3);
    assert_eq!(timeseries::rows_estimate(&Interval::Yearly, 400 * DAY), 2);
    assert_eq!(timeseries::rows_estimate(&Interval::Minute, 3600), 30);
    assert_eq!(timeseries::rows_estimate(&Interval::Hour, 10 * 3600), 5);
    assert_eq!(timeseries::rows_estimate(&Interval::Daily, 0), 0);
    assert_eq!(timeseries::rows_estimate(&Interval::Daily, -DAY), 0);
}

#[test]
fn rows_estimate_never_grows_as_frequency_coarsens() {
    for span in [7 * DAY, 30 * DAY, 365 * DAY, 10 * 365 * DAY] {
        let daily = timeseries::rows_estimate(&Interval::Daily, span);
        let weekly = timeseries::rows_estimate(&Interval::Weekly, span);
        let monthly = timeseries::rows_estimate(&Interval::Monthly, span);
        let quarterly = timeseries::rows_estimate(&Interval::Quarterly, span);
        let yearly = timeseries::rows_estimate(&Interval::Yearly, span);
        assert!(daily >= weekly);
        assert!(weekly >= monthly);
        assert!(monthly >= quarterly);
        assert!(quarterly >= yearly);
    }
}

#[test]
fn create_interval_covers_the_span_without_gaps() {
    let ivs = timeseries::create_interval(3, 0, 10);
    assert_eq!(ivs, vec![(0, 3), (3, 6), (6, 10)]);
    let one = timeseries::create_interval(1, 5, 2);
    assert_eq!(one, vec![(5, 2)]);
    let ivs = timeseries::create_interval(4, 100, 200);
    assert_eq!(ivs.first().unwrap().0, 100);
    assert_eq!(ivs.last().unwrap().1, 200);
    for w in ivs.windows(2) {
        assert_eq!(w[0].1, w[1].0);
    }
}

#[test]
fn timeseries_plan_splits_identifiers_and_span() {
    // 400 identifiers at daily frequency over a year: identifier groups
    // of 300 and enough sub-intervals to keep 300 * ~252 rows under
    // 3000 per response.
    let rics: Vec<String> = (0..400).map(|i| format!("R{}", i)).collect();
    let fields = vec!["CLOSE".to_string()];
    let span = 365 * DAY;
    let payloads = timeseries::groups(rics, fields, 0, span, Interval::Daily);
    let rows = timeseries::rows_estimate(&Interval::Daily, span);
    let expected_intervals = (rows * 300 + 2999) / 3000;
    assert_eq!(payloads.len(), 2 * expected_intervals as usize);
}

#[test]
fn no_identifiers_plan_no_chunks() {
    let payloads = timeseries::groups(vec![], vec!["CLOSE".to_string()], 0, 10 * DAY, Interval::Daily);
    assert!(payloads.is_empty());
}

#[test]
fn interval_codes_round_trip() {
    for code in [
        "minute", "hour", "daily", "weekly", "monthly", "quarterly", "yearly",
    ] {
        assert_eq!(Interval::new(code).unwrap().as_str(), code);
    }
    let err = Interval::new("fortnightly").unwrap_err();
    assert_eq!(err.describe(), "Error: Unrecognized frequency code: fortnightly");
}

#[test]
fn datagrid_groups_follow_the_date_span() {
    // Ten days at daily frequency: 50000 / 10 = 5000 identifiers.
    let params = Some(vec![
        ("SDate".to_string(), "2020-01-01".to_string()),
        ("EDate".to_string(), "2020-01-11".to_string()),
        ("Frq".to_string(), "d".to_string()),
    ]);
    assert_eq!(datagrid::groups(&params, 20000).unwrap(), 5000);

    // Weekly (case-insensitive code): 50000 * 7 / 10 caps at 7000.
    let params = Some(vec![
        ("SDate".to_string(), "2020-01-01".to_string()),
        ("EDate".to_string(), "2020-01-11".to_string()),
        ("Frq".to_string(), "CW".to_string()),
    ]);
    assert_eq!(datagrid::groups(&params, 20000).unwrap(), 7000);

    // No parameters: the identifier cap alone.
    assert_eq!(datagrid::groups(&None, 20000).unwrap(), 7000);

    // No SDate: the identifier cap alone.
    let params = Some(vec![("Frq".to_string(), "d".to_string())]);
    assert_eq!(datagrid::groups(&params, 20000).unwrap(), 7000);

    // A very long span at daily frequency pins the group at one.
    let params = Some(vec![("SDate".to_string(), "1820-01-01".to_string())]);
    assert_eq!(datagrid::groups(&params, 20000).unwrap(), 1);
}

#[test]
fn datagrid_group_size_never_shrinks_as_frequency_coarsens() {
    // A 100-day span: daily 500, weekly 3500, monthly 7000 (capped),
    // and so on upward through semiannual and annual.
    let base = vec![
        ("SDate".to_string(), "1970-01-01".to_string()),
        ("EDate".to_string(), "1970-04-11".to_string()),
    ];
    let mut last = 0usize;
    for code in ["d", "w", "m", "q", "ch", "y"] {
        let mut params = base.clone();
        params.push(("Frq".to_string(), code.to_string()));
        let g = datagrid::groups(&Some(params), 20000).unwrap();
        assert!(g >= last);
        last = g;
    }
    assert_eq!(
        datagrid::groups(
            &Some(vec![
                ("SDate".to_string(), "1970-01-01".to_string()),
                ("EDate".to_string(), "1970-04-11".to_string()),
            ]),
            20000
        )
        .unwrap(),
        500
    );
}

#[test]
fn datagrid_groups_uses_today_without_an_end_date() {
    // SDate = 1970-01-11, today = day 21: a ten-day span.
    let params = Some(vec![("SDate".to_string(), "1970-01-11".to_string())]);
    assert_eq!(datagrid::groups(&params, 20).unwrap(), 5000);
}

#[test]
fn malformed_dates_are_date_errors() {
    let params = Some(vec![("SDate".to_string(), "garbage".to_string())]);
    let err = datagrid::groups(&params, 20000).unwrap_err();
    assert_eq!(
        err.describe(),
        "Date error: Could not parse SDate string as Date, please supply a ISO8601 compliant Date format"
    );
    let params = Some(vec![
        ("SDate".to_string(), "2020-01-01".to_string()),
        ("EDate".to_string(), "01/02/2020".to_string()),
    ]);
    assert!(matches!(
        datagrid::groups(&params, 20000),
        Err(eikon_downloader::utils::EkError::DateError(_))
    ));
}

#[test]
fn str_to_date_counts_days_from_epoch() {
    assert_eq!(datagrid::str_to_date("1970-01-01").unwrap(), 0);
    assert_eq!(datagrid::str_to_date("2020-01-03").unwrap(), 18264);
    assert_eq!(datagrid::str_to_date("1969-12-31").unwrap(), -1);
    assert!(datagrid::str_to_date("2020-13-01").is_err());
}

#[test]
fn frequency_codes_ignore_ascii_case() {
    assert!(matches!(Frequency::new("AW"), Ok(Frequency::Weekly)));
    assert!(matches!(Frequency::new("cm"), Ok(Frequency::Monthly)));
    assert!(matches!(Frequency::new("Fi"), Ok(Frequency::Quarterly)));
    assert!(matches!(Frequency::new("FH"), Ok(Frequency::SemiAnnual)));
    assert!(matches!(Frequency::new("fy"), Ok(Frequency::Annual)));
    assert!(matches!(Frequency::new("d"), Ok(Frequency::Daily)));
    assert!(matches!(Frequency::new("D"), Ok(Frequency::Daily)));
    let err = Frequency::new("anything").unwrap_err();
    assert_eq!(err.describe(), "Error: Unrecognized frequency code: anything");
}

#[test]
fn unrecognized_frq_parameter_fails_the_plan() {
    let params = Some(vec![
        ("SDate".to_string(), "2020-01-01".to_string()),
        ("EDate".to_string(), "2020-01-11".to_string()),
        ("Frq".to_string(), "zz".to_string()),
    ]);
    let err = datagrid::groups(&params, 20000).unwrap_err();
    assert_eq!(err.describe(), "Error: Unrecognized frequency code: zz");
}

#[test]
fn datagrid_plan_renders_one_payload_per_group() {
    let dg = datagrid::Datagrid::new(eikon_downloader::connection::Connection::new(
        "key".to_string(),
        "127.0.0.1".to_string(),
        9000,
    ));
    let instruments = vec!["IBM.N".to_string(), "AAPL.O".to_string()];
    let fields = eikon_downloader::utils::field_builder(
        eikon_downloader::utils::Fields::NoParams(vec!["TR.CLOSE".to_string()]),
    );
    let payloads = dg
        .plan_payloads(&instruments, fields.as_str(), &None, 20000)
        .unwrap();
    assert_eq!(payloads.len(), 1);
    assert_eq!(
        payloads[0],
        r#"{"requests":[{"instruments":["IBM.N","AAPL.O"],"fields":[{"name":"TR.CLOSE"}]}]}"#
    );

    let params = Some(vec![("SDate".to_string(), "garbage".to_string())]);
    assert!(dg
        .plan_payloads(&instruments, fields.as_str(), &params, 20000)
        .is_err());
}

#[test]
fn datagrid_payload_carries_parameters() {
    let dg = datagrid::Datagrid::new(eikon_downloader::connection::Connection::new(
        "key".to_string(),
        "127.0.0.1".to_string(),
        9000,
    ));
    let params = Some(vec![
        ("SDate".to_string(), "2020-01-01".to_string()),
        ("EDate".to_string(), "2020-01-11".to_string()),
    ]);
    let p = dg.assemble_payload(
        &vec!["IBM.N".to_string()],
        r#"[{"name":"TR.CLOSE"}]"#,
        &params,
    );
    assert_eq!(
        p,
        r#"{"requests":[{"instruments":["IBM.N"],"fields":[{"name":"TR.CLOSE"}],"parameters":{"SDate":"2020-01-01","EDate":"2020-01-11"}}]}"#
    );
}
