use eikon_downloader::connection::{
    bearer, collect_results, dg_step, entity_assembler, port_candidates, ticket_payload,
    ts_step, Connection, DgAction, DgDispatch, DgEvent, Direction, TsAction, TsDispatch,
    TsEvent,
};
use eikon_downloader::datagrid::{DgBody, DgData};
use eikon_downloader::timeseries::TsBody;
use eikon_downloader::utils::EkError;

fn empty_data() -> DgData {
    DgData { headers: None, rows: vec![] }
}

#[test]
fn addresses_carry_host_and_port() {
    let mut con = Connection::new("k1".to_string(), "127.0.0.1".to_string(), 9000);
    assert_eq!(con.get_url(), "http://127.0.0.1");
    assert_eq!(con.get_address(), "http://127.0.0.1:9000");
    assert_eq!(con.get_app_key().as_str(), "k1");
    assert_eq!(con.handshake_url(), "http://127.0.0.1:9000/api/handshake");
    assert_eq!(con.data_url(), "http://127.0.0.1:9000/api/v1/data");
    assert_eq!(con.status_url(9003), "http://127.0.0.1:9003/api/status");
    con.set_port(9010);
    assert_eq!(con.get_address(), "http://127.0.0.1:9010");
    con.set_port(-3);
    assert_eq!(con.get_address(), "http://127.0.0.1:-3");
}

#[test]
fn port_candidates_are_ten_consecutive() {
    let ports = port_candidates(9000);
    assert_eq!(ports, vec![9000, 9001, 9002, 9003, 9004, 9005, 9006, 9007, 9008, 9009]);
}

#[test]
fn handshake_body_names_key_scope_and_version() {
    let con = Connection::new("my key".to_string(), "127.0.0.1".to_string(), 9000);
    assert_eq!(
        con.handshake_body(),
        r#"{"AppKey":"my key","AppScope":"trapi","ApiVersion":"1"}"#
    );
}

#[test]
fn bearer_header_comes_from_the_token_field() {
    assert_eq!(bearer(&Some("abc".to_string())).unwrap(), "Bearer abc");
    let err = bearer(&None).unwrap_err();
    assert_eq!(
        err.describe(),
        "Authentication error: Cannot get bearer access token"
    );
}

#[test]
fn entity_envelope_tags_the_data_family() {
    assert_eq!(
        entity_assembler(r#"{"rics":[]}"#, &Direction::TimeSeries),
        r#"{"Entity":{"E":"TimeSeries","W":{"rics":[]}}}"#
    );
    assert_eq!(
        entity_assembler("{}", &Direction::Datagrid),
        r#"{"Entity":{"E":"DataGrid_StandardAsync","W":{}}}"#
    );
}

#[test]
fn ticket_polls_resubmit_the_raw_ticket() {
    assert_eq!(
        ticket_payload("\"T-17\""),
        r#"{"requests":[{"ticket":"T-17"}]}"#
    );
}

#[test]
fn benign_error_codes_are_retried() {
    for code in [2504u64, 500, 400] {
        let (st, act) = dg_step(
            DgDispatch::start(),
            DgEvent::Body(DgBody::ErrorInfo {
                code: Some(code),
                code_text: code.to_string(),
                message: "\"slow down\"".to_string(),
            }),
        );
        assert!(matches!(act, DgAction::Resubmit));
        assert_eq!(st.trial, 2);
    }
}

#[test]
fn fatal_error_codes_fail_with_code_and_message() {
    let (_, act) = dg_step(
        DgDispatch::start(),
        DgEvent::Body(DgBody::ErrorInfo {
            code: Some(9999),
            code_text: "9999".to_string(),
            message: "\"boom\"".to_string(),
        }),
    );
    match act {
        DgAction::Fail(e) => assert_eq!(e.describe(), "Error: 9999: \"boom\""),
        _ => panic!("expected a failure"),
    }
}

#[test]
fn unreadable_error_codes_fail_naming_the_raw_code() {
    let (_, act) = dg_step(
        DgDispatch::start(),
        DgEvent::Body(DgBody::ErrorInfo {
            code: None,
            code_text: "\"E-1\"".to_string(),
            message: "\"boom\"".to_string(),
        }),
    );
    match act {
        DgAction::Fail(e) => assert_eq!(
            e.describe(),
            "Error: Could not parse as Error Code as u64, \"E-1\": \"boom\""
        ),
        _ => panic!("expected a failure"),
    }
}

#[test]
fn chunks_retry_five_times_then_drop() {
    let mut st = DgDispatch::start();
    for expected_trial in 2..=5 {
        let (st2, act) = dg_step(st, DgEvent::NoResult);
        assert!(matches!(act, DgAction::Resubmit));
        assert_eq!(st2.trial, expected_trial);
        st = st2;
    }
    let (_, act) = dg_step(st, DgEvent::NoResult);
    assert!(matches!(act, DgAction::Finish(None)));
}

#[test]
fn tickets_move_the_chunk_into_polling() {
    let (st, act) = dg_step(
        DgDispatch::start(),
        DgEvent::Body(DgBody::Responses {
            ticket: Some("\"T1\"".to_string()),
            data: empty_data(),
        }),
    );
    match act {
        DgAction::PollTicket(t) => assert_eq!(t, "\"T1\""),
        _ => panic!("expected a poll"),
    }
    assert_eq!(st.ticket.as_deref(), Some("\"T1\""));

    // While polling, an empty exchange polls again, without limit.
    let (st2, act) = dg_step(st, DgEvent::NoResult);
    assert!(matches!(act, DgAction::PollTicket(_)));
    let (_, act) = dg_step(
        st2,
        DgEvent::Body(DgBody::Responses { ticket: None, data: empty_data() }),
    );
    assert!(matches!(act, DgAction::Finish(Some(_))));
}

#[test]
fn a_body_with_neither_responses_nor_code_drops_the_chunk() {
    let (_, act) = dg_step(DgDispatch::start(), DgEvent::Body(DgBody::Neither));
    assert!(matches!(act, DgAction::Finish(None)));
}

#[test]
fn unparsable_bodies_fail_the_call() {
    let (_, act) = dg_step(
        DgDispatch::start(),
        DgEvent::BadJson("expected value at line 1".to_string()),
    );
    match act {
        DgAction::Fail(e) => {
            assert_eq!(e.describe(), "No data returned: expected value at line 1")
        },
        _ => panic!("expected a failure"),
    }
}

#[test]
fn timeseries_chunks_finish_on_any_body() {
    let (_, act) = ts_step(TsDispatch::start(), TsEvent::Body(TsBody::Data(vec![])));
    assert!(matches!(act, TsAction::Finish(Some(_))));

    let mut st = TsDispatch::start();
    for _ in 0..4 {
        let (st2, act) = ts_step(st, TsEvent::NoResult);
        assert!(matches!(act, TsAction::Resubmit));
        st = st2;
    }
    let (_, act) = ts_step(st, TsEvent::NoResult);
    assert!(matches!(act, TsAction::Finish(None)));

    let (_, act) = ts_step(TsDispatch::start(), TsEvent::BadJson("bad".to_string()));
    assert!(matches!(act, TsAction::Fail(EkError::NoData(_))));
}

#[test]
fn collected_results_keep_order_and_drop_nothing_but_misses() {
    let results: Vec<Result<Option<u32>, EkError>> =
        vec![Ok(Some(1)), Ok(None), Ok(Some(2)), Ok(Some(3))];
    assert_eq!(collect_results(results).unwrap(), vec![1, 2, 3]);

    let results: Vec<Result<Option<u32>, EkError>> = vec![
        Ok(Some(1)),
        Err(EkError::ThreadError("join".to_string())),
        Ok(Some(2)),
    ];
    let err = collect_results(results).unwrap_err();
    assert_eq!(err.describe(), "Thread error: join");
}
