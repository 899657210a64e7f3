use pg_driver::client::{Client, PortalEnd, Statement};
use pg_driver::connection::{AsyncMessage, Connection, Event, Mode};
use pg_driver::names::NameAllocator;
use pg_driver::protocol::{
    encode_cancel_request, encode_ssl_request, BackendMessage, CancelData, Column, ConnectError,
    DbError, Error, FrontendMessage, IoKind, Notification, TlsMode, Violation,
};
use pg_driver::transaction::{
    TransactionBuilder, TransactionError, TxAction, TxCommand, TxEvent,
};
use std::collections::HashSet;

fn db_error(code: &str) -> DbError {
    DbError {
        severity: "ERROR".to_string(),
        code: code.to_string(),
        message: "failed".to_string(),
        detail: None,
        hint: None,
    }
}

fn ready_connection() -> Connection {
    let mut conn = Connection::new();
    conn.handle_message(BackendMessage::AuthenticationOk);
    conn.handle_message(BackendMessage::BackendKeyData { process_id: 42, secret_key: 7 });
    conn.handle_message(BackendMessage::ReadyForQuery);
    conn
}

fn statement(name: &[u8], params: Vec<u32>) -> Statement {
    let columns = vec![Column { name: "x".to_string(), type_oid: 25 }];
    Statement { name: name.to_vec(), params, columns }
}

fn two_columns(name: &[u8]) -> Statement {
    let columns = vec![
        Column { name: "id".to_string(), type_oid: 23 },
        Column { name: "name".to_string(), type_oid: 25 },
    ];
    Statement { name: name.to_vec(), params: vec![], columns }
}

fn row(values: &[&[u8]]) -> BackendMessage {
    BackendMessage::DataRow(values.iter().map(|v| Some(v.to_vec())).collect())
}

#[test]
fn names_are_numbered_by_kind() {
    let mut names = NameAllocator::new();
    assert_eq!(names.next_statement(), b"s0".to_vec());
    assert_eq!(names.next_statement(), b"s1".to_vec());
    assert_eq!(names.next_portal(), b"p0".to_vec());
    for _ in 0..9 {
        names.next_statement();
    }
    assert_eq!(names.next_statement(), b"s11".to_vec());
}

#[test]
fn ten_thousand_names_are_distinct() {
    let mut conn = ready_connection();
    let mut clients = vec![Client::new(), Client::new(), Client::new(), Client::new()];
    let mut seen = HashSet::new();
    for i in 0..10_000usize {
        let client = &mut clients[i % 4];
        let name = if i % 2 == 0 {
            client.prepare(&mut conn, "SELECT 1").name
        } else {
            let st = statement(b"s0", vec![]);
            client.bind(&mut conn, &st, vec![]).portal
        };
        seen.insert(name);
    }
    assert_eq!(seen.len(), 10_000);
}

#[test]
fn cancel_request_bytes() {
    let bytes = encode_cancel_request(CancelData { process_id: 1234, secret_key: 5678 });
    assert_eq!(
        bytes,
        vec![0, 0, 0, 16, 4, 210, 22, 46, 0, 0, 4, 210, 0, 0, 22, 46]
    );
    let negative = encode_cancel_request(CancelData { process_id: -1, secret_key: 1 });
    assert_eq!(&negative[8..12], &[255, 255, 255, 255]);
}

#[test]
fn ssl_request_bytes() {
    assert_eq!(encode_ssl_request(), vec![0, 0, 0, 8, 4, 210, 22, 47]);
}

#[test]
fn tls_policies() {
    assert!(!TlsMode::Disable.sends_request());
    assert!(TlsMode::Prefer.sends_request());
    assert_eq!(TlsMode::Prefer.negotiate(b'S'), Ok(true));
    assert_eq!(TlsMode::Prefer.negotiate(b'N'), Ok(false));
    assert_eq!(TlsMode::Require.negotiate(b'S'), Ok(true));
    assert_eq!(
        TlsMode::Require.negotiate(b'N'),
        Err(Error::Connect(ConnectError::TlsRequired))
    );
    assert_eq!(
        TlsMode::Prefer.negotiate(b'E'),
        Err(Error::Protocol(Violation::BadUpgradeResponse))
    );
}

#[test]
fn startup_records_identity_and_parameters() {
    let mut conn = Connection::new();
    conn.handle_message(BackendMessage::AuthenticationOk);
    conn.handle_message(BackendMessage::ParameterStatus {
        name: "server_version".to_string(),
        value: "9.6".to_string(),
    });
    conn.handle_message(BackendMessage::ParameterStatus {
        name: "TimeZone".to_string(),
        value: "UTC".to_string(),
    });
    conn.handle_message(BackendMessage::BackendKeyData { process_id: 9, secret_key: 3 });
    assert_eq!(conn.mode, Mode::Startup);
    conn.handle_message(BackendMessage::ReadyForQuery);
    assert_eq!(conn.mode, Mode::Ready);
    assert_eq!(conn.cancel_data(), Some(CancelData { process_id: 9, secret_key: 3 }));
    assert_eq!(conn.parameter("server_version"), Some("9.6"));
    assert_eq!(conn.parameter("TimeZone"), Some("UTC"));
    assert_eq!(conn.parameter("missing"), None);
    conn.handle_message(BackendMessage::ParameterStatus {
        name: "TimeZone".to_string(),
        value: "CET".to_string(),
    });
    assert_eq!(conn.parameter("TimeZone"), Some("CET"));
}

#[test]
fn startup_failures_poison() {
    let mut conn = Connection::new();
    let mut client = Client::new();
    let queued = client.batch_execute(&mut conn, "SELECT 1");
    conn.handle_message(BackendMessage::ErrorResponse(db_error("28P01")));
    assert_eq!(conn.poisoned, Some(Error::Connect(ConnectError::Rejected)));
    assert_eq!(queued.poll(&mut conn), Some(Err(Error::Connect(ConnectError::Rejected))));

    let mut other = Connection::new();
    other.handle_message(BackendMessage::AuthenticationRequest);
    assert_eq!(
        other.poisoned,
        Some(Error::Connect(ConnectError::UnsupportedAuthentication))
    );
}

#[test]
fn prepare_sends_parse_describe_sync_and_yields_statement() {
    let mut conn = ready_connection();
    let mut client = Client::new();
    let handle = client.prepare_typed(&mut conn, "SELECT $1", &[23]);
    assert_eq!(
        conn.outbound,
        vec![
            FrontendMessage::Parse {
                name: b"s0".to_vec(),
                query: "SELECT $1".to_string(),
                param_types: vec![23],
            },
            FrontendMessage::DescribeStatement { name: b"s0".to_vec() },
            FrontendMessage::Sync,
        ]
    );
    assert!(handle.poll(&mut conn).is_none());
    conn.handle_message(BackendMessage::ParseComplete);
    conn.handle_message(BackendMessage::ParameterDescription(vec![23]));
    let col = Column { name: "x".to_string(), type_oid: 23 };
    conn.handle_message(BackendMessage::RowDescription(vec![col.clone()]));
    conn.handle_message(BackendMessage::ReadyForQuery);
    let st = handle.poll(&mut conn).unwrap().unwrap();
    assert_eq!(st.name, b"s0".to_vec());
    assert_eq!(st.params(), &[23]);
    assert_eq!(st.columns(), &[col]);
    assert!(conn.queue.is_empty());
    assert!(handle.poll(&mut conn).is_none());
}

#[test]
fn prepare_without_result_columns() {
    let mut conn = ready_connection();
    let mut client = Client::new();
    let handle = client.prepare(&mut conn, "INSERT INTO t VALUES (1)");
    conn.handle_message(BackendMessage::ParseComplete);
    conn.handle_message(BackendMessage::ParameterDescription(vec![]));
    conn.handle_message(BackendMessage::RowDescription(vec![]));
    conn.handle_message(BackendMessage::ReadyForQuery);
    let st = handle.poll(&mut conn).unwrap().unwrap();
    assert!(st.params().is_empty());
    assert!(st.columns().is_empty());
}

#[test]
fn completions_follow_submission_order() {
    let mut conn = ready_connection();
    let mut a = Client::new();
    let mut b = a;
    let st = statement(b"s0", vec![]);
    let first = a.execute(&mut conn, &st, vec![]);
    let second = b.execute(&mut conn, &st, vec![]);
    let third = a.batch_execute(&mut conn, "SELECT 1");
    for n in [1u64, 2] {
        conn.handle_message(BackendMessage::BindComplete);
        conn.handle_message(BackendMessage::CommandComplete(n));
        conn.handle_message(BackendMessage::ReadyForQuery);
    }
    conn.handle_message(BackendMessage::CommandComplete(0));
    conn.handle_message(BackendMessage::ReadyForQuery);
    assert_eq!(third.poll(&mut conn), Some(Ok(())));
    assert_eq!(second.poll(&mut conn), Some(Ok(2)));
    assert_eq!(first.poll(&mut conn), Some(Ok(1)));
    let ids: Vec<u64> = conn
        .events
        .iter()
        .filter_map(|e| match e {
            Event::Completed { id, .. } => Some(*id),
            _ => None,
        })
        .collect();
    assert_eq!(ids, vec![first.id, second.id, third.id]);
    assert!(first.id < second.id && second.id < third.id);
}

#[test]
fn execute_request_and_error_is_local() {
    let mut conn = ready_connection();
    let mut client = Client::new();
    let st = statement(b"s3", vec![25]);
    let failing = client.execute(&mut conn, &st, vec![Some(b"a".to_vec())]);
    assert_eq!(
        conn.outbound,
        vec![
            FrontendMessage::Bind {
                portal: vec![],
                statement: b"s3".to_vec(),
                params: vec![Some(b"a".to_vec())],
            },
            FrontendMessage::Execute { portal: vec![], max_rows: 0 },
            FrontendMessage::Sync,
        ]
    );
    let next = client.execute(&mut conn, &st, vec![None]);
    conn.handle_message(BackendMessage::ErrorResponse(db_error("23505")));
    conn.handle_message(BackendMessage::ReadyForQuery);
    conn.handle_message(BackendMessage::BindComplete);
    conn.handle_message(BackendMessage::EmptyQueryResponse);
    conn.handle_message(BackendMessage::ReadyForQuery);
    assert_eq!(failing.poll(&mut conn), Some(Err(Error::Db(db_error("23505")))));
    assert_eq!(next.poll(&mut conn), Some(Ok(0)));
    assert!(conn.poisoned.is_none());
}

#[test]
fn query_streams_rows() {
    let mut conn = ready_connection();
    let mut client = Client::new();
    let st = two_columns(b"s0");
    let q = client.query(&mut conn, &st, vec![]);
    conn.handle_message(BackendMessage::BindComplete);
    conn.handle_message(row(&[b"1", b"a"]));
    let first = q.rows(&mut conn);
    assert_eq!(first.len(), 1);
    assert_eq!(first[0].len(), 2);
    assert_eq!(first[0].len(), st.columns().len());
    assert_eq!(first[0].get(1), Some(&b"a".to_vec()));
    conn.handle_message(BackendMessage::DataRow(vec![None, Some(b"b".to_vec())]));
    conn.handle_message(BackendMessage::CommandComplete(2));
    assert_eq!(q.finish(&mut conn), Some(Ok(())));
    let rest = q.rows(&mut conn);
    assert_eq!(rest.len(), 1);
    assert_eq!(rest[0].try_get(0), Some(None));
    assert_eq!(rest[0].try_get(1), Some(Some(&b"b".to_vec())));
    assert_eq!(rest[0].try_get(2), None);
    conn.handle_message(BackendMessage::ReadyForQuery);
    assert!(conn.queue.is_empty());
}

#[test]
fn row_of_wrong_width_poisons() {
    let mut conn = ready_connection();
    let mut client = Client::new();
    let st = two_columns(b"s0");
    let q = client.query(&mut conn, &st, vec![]);
    conn.handle_message(BackendMessage::BindComplete);
    conn.handle_message(row(&[b"1"]));
    assert_eq!(conn.poisoned, Some(Error::Protocol(Violation::UnexpectedMessage)));
    assert!(q.rows(&mut conn).is_empty());
    assert_eq!(q.finish(&mut conn), Some(Err(Error::Protocol(Violation::UnexpectedMessage))));
}

#[test]
fn portal_suspends_then_exhausts() {
    let mut conn = ready_connection();
    let mut client = Client::new();
    let st = statement(b"s0", vec![]);
    let bind = client.bind(&mut conn, &st, vec![]);
    conn.handle_message(BackendMessage::BindComplete);
    conn.handle_message(BackendMessage::ReadyForQuery);
    let portal = bind.poll(&mut conn).unwrap().unwrap();
    assert_eq!(portal.name, b"p0".to_vec());

    let before = conn.outbound.len();
    let batch = client.query_portal(&mut conn, &portal, 2);
    assert_eq!(
        conn.outbound[before..],
        [
            FrontendMessage::Execute { portal: b"p0".to_vec(), max_rows: 2 },
            FrontendMessage::Sync,
        ]
    );
    conn.handle_message(row(&[b"1"]));
    conn.handle_message(row(&[b"2"]));
    conn.handle_message(BackendMessage::PortalSuspended);
    conn.handle_message(BackendMessage::ReadyForQuery);
    assert_eq!(batch.rows(&mut conn).len(), 2);
    assert_eq!(batch.finish(&mut conn), Some(Ok(PortalEnd::Suspended)));

    let rest = client.query_portal(&mut conn, &portal, 0);
    for v in [b"3", b"4", b"5"] {
        conn.handle_message(row(&[v]));
    }
    conn.handle_message(BackendMessage::CommandComplete(3));
    conn.handle_message(BackendMessage::ReadyForQuery);
    let rows = rest.rows(&mut conn);
    assert_eq!(rows.len(), 3);
    assert_eq!(rows[2].get(0), Some(&b"5".to_vec()));
    assert_eq!(rest.finish(&mut conn), Some(Ok(PortalEnd::Exhausted)));
}

#[test]
fn copy_in_sends_chunks_in_order() {
    let mut conn = ready_connection();
    let mut client = Client::new();
    let st = statement(b"s1", vec![]);
    let copy = client.copy_in(
        &mut conn,
        &st,
        vec![],
        vec![b"1\ta\n".to_vec(), b"2\tb\n".to_vec()],
        None,
    );
    assert_eq!(
        conn.outbound[2..],
        [
            FrontendMessage::CopyData(b"1\ta\n".to_vec()),
            FrontendMessage::CopyData(b"2\tb\n".to_vec()),
            FrontendMessage::CopyDone,
            FrontendMessage::Sync,
        ]
    );
    conn.handle_message(BackendMessage::BindComplete);
    conn.handle_message(BackendMessage::CopyInResponse);
    conn.handle_message(BackendMessage::CommandComplete(2));
    conn.handle_message(BackendMessage::ReadyForQuery);
    assert_eq!(copy.poll(&mut conn), Some(Ok(2)));
}

#[test]
fn copy_in_source_failure_sends_copy_fail() {
    let mut conn = ready_connection();
    let mut client = Client::new();
    let st = statement(b"s1", vec![]);
    let copy = client.copy_in(&mut conn, &st, vec![], vec![b"x".to_vec()], Some("broken".to_string()));
    assert_eq!(
        conn.outbound[2..],
        [
            FrontendMessage::CopyData(b"x".to_vec()),
            FrontendMessage::CopyFail { message: "broken".to_string() },
            FrontendMessage::Sync,
        ]
    );
    conn.handle_message(BackendMessage::BindComplete);
    conn.handle_message(BackendMessage::CopyInResponse);
    conn.handle_message(BackendMessage::ErrorResponse(db_error("57014")));
    conn.handle_message(BackendMessage::ReadyForQuery);
    assert_eq!(copy.poll(&mut conn), Some(Err(Error::Db(db_error("57014")))));
}

#[test]
fn copy_out_chunks_concatenate() {
    let mut conn = ready_connection();
    let mut client = Client::new();
    let st = statement(b"s2", vec![]);
    let out = client.copy_out(&mut conn, &st, vec![]);
    conn.handle_message(BackendMessage::BindComplete);
    conn.handle_message(BackendMessage::CopyOutResponse);
    conn.handle_message(BackendMessage::CopyData(b"1\ta\n".to_vec()));
    conn.handle_message(BackendMessage::CopyData(b"2\tb\n".to_vec()));
    conn.handle_message(BackendMessage::CopyDone);
    conn.handle_message(BackendMessage::CommandComplete(2));
    conn.handle_message(BackendMessage::ReadyForQuery);
    let data: Vec<u8> = out.chunks(&mut conn).concat();
    assert_eq!(data, b"1\ta\n2\tb\n".to_vec());
    assert_eq!(out.finish(&mut conn), Some(Ok(())));
}

#[test]
fn batch_execute_sends_one_query() {
    let mut conn = ready_connection();
    let mut client = Client::new();
    let batch = client.batch_execute(&mut conn, "CREATE TABLE t (x int); INSERT INTO t VALUES (1)");
    assert_eq!(
        conn.outbound,
        vec![FrontendMessage::Query {
            sql: "CREATE TABLE t (x int); INSERT INTO t VALUES (1)".to_string()
        }]
    );
    conn.handle_message(BackendMessage::CommandComplete(0));
    assert_eq!(batch.poll(&mut conn), None);
    conn.handle_message(BackendMessage::CommandComplete(1));
    conn.handle_message(BackendMessage::ReadyForQuery);
    assert_eq!(batch.poll(&mut conn), Some(Ok(())));
}

#[test]
fn protocol_violation_poisons_everything() {
    let mut conn = ready_connection();
    let mut client = Client::new();
    let st = statement(b"s0", vec![]);
    let a = client.execute(&mut conn, &st, vec![]);
    let b = client.query(&mut conn, &st, vec![]);
    conn.handle_message(BackendMessage::PortalSuspended);
    let cause = Error::Protocol(Violation::UnexpectedMessage);
    assert_eq!(conn.poisoned, Some(cause.clone()));
    assert_eq!(a.poll(&mut conn), Some(Err(cause.clone())));
    assert_eq!(b.finish(&mut conn), Some(Err(cause.clone())));

    let sent = conn.outbound.len();
    let late = client.batch_execute(&mut conn, "SELECT 1");
    assert_eq!(conn.outbound.len(), sent);
    assert_eq!(late.poll(&mut conn), Some(Err(cause.clone())));
    conn.handle_message(BackendMessage::ReadyForQuery);
    assert_eq!(conn.poll_message(), Err(cause.clone()));
    assert_eq!(conn.poll_message(), Err(cause));
}

#[test]
fn transport_failure_poisons_once() {
    let mut conn = ready_connection();
    let mut client = Client::new();
    let st = statement(b"s0", vec![]);
    let a = client.execute(&mut conn, &st, vec![]);
    conn.transport_failed(IoKind::TimedOut);
    conn.transport_failed(IoKind::ConnectionReset);
    assert_eq!(conn.poisoned, Some(Error::Io(IoKind::TimedOut)));
    assert_eq!(a.poll(&mut conn), Some(Err(Error::Io(IoKind::TimedOut))));
    let b = client.prepare(&mut conn, "SELECT 1");
    assert_eq!(b.poll(&mut conn).map(|r| r.err()), Some(Some(Error::Io(IoKind::TimedOut))));
}

#[test]
fn reply_without_operation_poisons() {
    let mut conn = ready_connection();
    conn.handle_message(BackendMessage::CommandComplete(1));
    assert_eq!(conn.poisoned, Some(Error::Protocol(Violation::NoPendingOperation)));
}

#[test]
fn side_channel_does_not_disturb_operations() {
    let mut conn = ready_connection();
    let mut client = Client::new();
    let st = statement(b"s0", vec![]);
    let a = client.execute(&mut conn, &st, vec![]);
    assert_eq!(conn.poll_message(), Ok(None));
    conn.handle_message(BackendMessage::BindComplete);
    conn.handle_message(BackendMessage::NoticeResponse(db_error("01000")));
    let note = Notification { process_id: 5, channel: "c".to_string(), payload: "hi".to_string() };
    conn.handle_message(BackendMessage::NotificationResponse(note.clone()));
    conn.handle_message(BackendMessage::CommandComplete(4));
    conn.handle_message(BackendMessage::ReadyForQuery);
    assert_eq!(a.poll(&mut conn), Some(Ok(4)));
    assert_eq!(conn.poll_message(), Ok(Some(AsyncMessage::Notice(db_error("01000")))));
    assert_eq!(conn.poll_message(), Ok(Some(AsyncMessage::Notification(note))));
    assert_eq!(conn.poll_message(), Ok(None));
}

#[test]
fn error_after_result_stays_local() {
    let mut conn = ready_connection();
    let mut client = Client::new();
    let st = statement(b"s0", vec![]);
    let bind = client.bind(&mut conn, &st, vec![]);
    conn.handle_message(BackendMessage::BindComplete);
    conn.handle_message(BackendMessage::ErrorResponse(db_error("XX000")));
    conn.handle_message(BackendMessage::ReadyForQuery);
    assert!(bind.poll(&mut conn).unwrap().is_ok());
    assert!(conn.poisoned.is_none());
    let later = client.batch_execute(&mut conn, "SELECT 1");
    conn.handle_message(BackendMessage::ReadyForQuery);
    assert_eq!(later.poll(&mut conn), Some(Ok(())));
}

#[test]
fn transaction_commits_after_success() {
    let mut client = Client::new();
    let builder: TransactionBuilder = client.transaction();
    let mut tx = builder.build::<u32, String>();
    assert_eq!(tx.poll(TxEvent::Start), TxAction::Send(TxCommand::Begin));
    assert_eq!(TxCommand::Begin.sql(), "BEGIN");
    assert_eq!(tx.poll(TxEvent::BatchDone(Ok(()))), TxAction::RunInner);
    assert_eq!(tx.poll(TxEvent::InnerDone(Ok(7))), TxAction::Send(TxCommand::Commit));
    assert_eq!(TxCommand::Commit.sql(), "COMMIT");
    assert_eq!(tx.poll(TxEvent::BatchDone(Ok(()))), TxAction::Finish(Ok(7)));
    assert_eq!(tx.poll(TxEvent::BatchDone(Ok(()))), TxAction::Ignore);
}

#[test]
fn transaction_rolls_back_and_keeps_inner_error() {
    let mut tx = Client::new().transaction().build::<u32, String>();
    tx.poll(TxEvent::Start);
    tx.poll(TxEvent::BatchDone(Ok(())));
    assert_eq!(
        tx.poll(TxEvent::InnerDone(Err("inner".to_string()))),
        TxAction::Send(TxCommand::Rollback)
    );
    assert_eq!(TxCommand::Rollback.sql(), "ROLLBACK");
    assert_eq!(
        tx.poll(TxEvent::BatchDone(Ok(()))),
        TxAction::Finish(Err(TransactionError::Inner("inner".to_string())))
    );
}

#[test]
fn transaction_failed_bracket_surfaces() {
    let mut tx = Client::new().transaction().build::<u32, String>();
    tx.poll(TxEvent::Start);
    tx.poll(TxEvent::BatchDone(Ok(())));
    tx.poll(TxEvent::InnerDone(Err("inner".to_string())));
    let cause = Error::Io(IoKind::ConnectionReset);
    assert_eq!(
        tx.poll(TxEvent::BatchDone(Err(cause.clone()))),
        TxAction::Finish(Err(TransactionError::Client(cause.clone())))
    );

    let mut committed = Client::new().transaction().build::<u32, String>();
    committed.poll(TxEvent::Start);
    committed.poll(TxEvent::BatchDone(Ok(())));
    committed.poll(TxEvent::InnerDone(Ok(1)));
    assert_eq!(
        committed.poll(TxEvent::BatchDone(Err(cause.clone()))),
        TxAction::Finish(Err(TransactionError::Client(cause.clone())))
    );

    let mut unstarted = Client::new().transaction().build::<u32, String>();
    assert_eq!(unstarted.poll(TxEvent::InnerDone(Ok(1))), TxAction::Ignore);
    unstarted.poll(TxEvent::Start);
    assert_eq!(
        unstarted.poll(TxEvent::BatchDone(Err(cause.clone()))),
        TxAction::Finish(Err(TransactionError::Client(cause)))
    );
}

#[test]
fn discarding_taken_events_keeps_the_rest_in_order() {
    let mut conn = ready_connection();
    let mut client = Client::new();
    let st = statement(b"s0", vec![]);
    let q = client.query(&mut conn, &st, vec![]);
    let e = client.execute(&mut conn, &st, vec![]);
    conn.handle_message(BackendMessage::BindComplete);
    conn.handle_message(row(&[b"1"]));
    conn.handle_message(BackendMessage::CommandComplete(1));
    conn.handle_message(BackendMessage::ReadyForQuery);
    conn.handle_message(BackendMessage::BindComplete);
    conn.handle_message(BackendMessage::CommandComplete(9));
    conn.handle_message(BackendMessage::ReadyForQuery);
    assert_eq!(conn.events.len(), 3);
    assert_eq!(q.rows(&mut conn).len(), 1);
    conn.discard_taken();
    assert_eq!(conn.events.len(), 2);
    assert_eq!(q.finish(&mut conn), Some(Ok(())));
    conn.discard_taken();
    assert_eq!(
        conn.events,
        vec![Event::Completed { id: e.id, result: Some(Ok(pg_driver::operation::Outcome::RowsAffected(9))) }]
    );
    assert_eq!(e.poll(&mut conn), Some(Ok(9)));
    conn.discard_taken();
    assert!(conn.events.is_empty());
}

#[test]
fn forgotten_operation_is_drained_and_dropped() {
    let mut conn = ready_connection();
    let mut client = Client::new();
    let st = statement(b"s0", vec![]);
    let dropped = client.query(&mut conn, &st, vec![]);
    let kept = client.execute(&mut conn, &st, vec![]);
    conn.handle_message(BackendMessage::BindComplete);
    conn.handle_message(row(&[b"1"]));
    conn.forget(dropped.id);
    conn.handle_message(row(&[b"2"]));
    conn.handle_message(BackendMessage::CommandComplete(2));
    conn.handle_message(BackendMessage::ReadyForQuery);
    conn.forget(dropped.id);
    conn.handle_message(BackendMessage::BindComplete);
    conn.handle_message(BackendMessage::CommandComplete(6));
    conn.handle_message(BackendMessage::ReadyForQuery);
    conn.discard_taken();
    assert_eq!(conn.events.len(), 1);
    assert_eq!(kept.poll(&mut conn), Some(Ok(6)));
    assert!(dropped.rows(&mut conn).is_empty());
    assert_eq!(dropped.finish(&mut conn), None);
}

#[test]
fn rows_are_taken_once() {
    let mut conn = ready_connection();
    let mut client = Client::new();
    let st = statement(b"s0", vec![]);
    let q = client.query(&mut conn, &st, vec![]);
    conn.handle_message(BackendMessage::BindComplete);
    conn.handle_message(row(&[b"1"]));
    conn.handle_message(BackendMessage::CommandComplete(1));
    assert_eq!(q.rows(&mut conn).len(), 1);
    assert!(q.rows(&mut conn).is_empty());
    assert_eq!(q.finish(&mut conn), Some(Ok(())));
    assert_eq!(q.finish(&mut conn), None);
}

#[test]
fn rows_carry_the_statement_columns() {
    let mut conn = ready_connection();
    let mut client = Client::new();
    let cols = vec![
        Column { name: "id".to_string(), type_oid: 23 },
        Column { name: "name".to_string(), type_oid: 25 },
    ];
    let st = Statement { name: b"s0".to_vec(), params: vec![], columns: cols.clone() };
    let q = client.query(&mut conn, &st, vec![]);
    let bind = client.bind(&mut conn, &st, vec![]);
    conn.handle_message(BackendMessage::BindComplete);
    conn.handle_message(row(&[b"1", b"a"]));
    conn.handle_message(BackendMessage::CommandComplete(1));
    conn.handle_message(BackendMessage::ReadyForQuery);
    conn.handle_message(BackendMessage::BindComplete);
    conn.handle_message(BackendMessage::ReadyForQuery);
    let rows = q.rows(&mut conn);
    assert_eq!(rows[0].columns(), &cols[..]);
    assert_eq!(rows[0].len(), rows[0].columns().len());
    let portal = bind.poll(&mut conn).unwrap().unwrap();
    assert_eq!(portal.columns, cols);
    let fetch = client.query_portal(&mut conn, &portal, 0);
    conn.handle_message(row(&[b"2", b"b"]));
    conn.handle_message(BackendMessage::CommandComplete(1));
    conn.handle_message(BackendMessage::ReadyForQuery);
    assert_eq!(fetch.rows(&mut conn)[0].columns(), &cols[..]);
}

#[test]
fn startup_message_and_cleartext_password() {
    let mut conn = Connection::start("alice", Some("db".to_string()), Some("pw".to_string()));
    assert_eq!(
        conn.outbound,
        vec![FrontendMessage::Startup { user: "alice".to_string(), database: Some("db".to_string()) }]
    );
    conn.handle_message(BackendMessage::AuthenticationCleartextPassword);
    assert_eq!(conn.outbound[1], FrontendMessage::Password { password: "pw".to_string() });
    conn.handle_message(BackendMessage::AuthenticationOk);
    conn.handle_message(BackendMessage::ReadyForQuery);
    assert_eq!(conn.mode, Mode::Ready);
    assert!(conn.poisoned.is_none());

    let mut without = Connection::start("bob", None, None);
    without.handle_message(BackendMessage::AuthenticationCleartextPassword);
    assert_eq!(without.poisoned, Some(Error::Connect(ConnectError::PasswordRequired)));
    assert_eq!(without.outbound.len(), 1);
}

#[test]
fn connection_poll_reports_only_fatal_causes() {
    let mut conn = ready_connection();
    let mut client = Client::new();
    let st = statement(b"s0", vec![]);
    let e = client.execute(&mut conn, &st, vec![]);
    conn.handle_message(BackendMessage::ErrorResponse(db_error("42P01")));
    conn.handle_message(BackendMessage::ReadyForQuery);
    assert_eq!(conn.poll(), None);
    assert_eq!(e.poll(&mut conn), Some(Err(Error::Db(db_error("42P01")))));
    conn.transport_failed(IoKind::UnexpectedEof);
    assert_eq!(conn.poll(), Some(Error::Io(IoKind::UnexpectedEof)));
}

#[test]
fn parameters_are_replaced_by_name() {
    let mut conn = ready_connection();
    for v in ["a", "b", "c"] {
        conn.handle_message(BackendMessage::ParameterStatus {
            name: "application_name".to_string(),
            value: v.to_string(),
        });
    }
    assert_eq!(conn.parameters.len(), 1);
    assert_eq!(conn.parameter("application_name"), Some("c"));
}

#[test]
fn second_backend_key_poisons() {
    let mut conn = Connection::new();
    conn.handle_message(BackendMessage::BackendKeyData { process_id: 1, secret_key: 2 });
    conn.handle_message(BackendMessage::BackendKeyData { process_id: 3, secret_key: 4 });
    assert_eq!(conn.cancel_data(), Some(CancelData { process_id: 1, secret_key: 2 }));
    assert_eq!(conn.poisoned, Some(Error::Protocol(Violation::UnexpectedMessage)));
}

#[test]
fn outbound_is_drained() {
    let mut conn = ready_connection();
    let mut client = Client::new();
    client.batch_execute(&mut conn, "SELECT 1");
    let sent = conn.take_outbound();
    assert_eq!(sent, vec![FrontendMessage::Query { sql: "SELECT 1".to_string() }]);
    assert!(conn.take_outbound().is_empty());
}

#[test]
fn startup_rejection_keeps_server_error() {
    let mut conn = Connection::start("alice", None, None);
    conn.handle_message(BackendMessage::ErrorResponse(db_error("28000")));
    assert_eq!(conn.poll(), Some(Error::Connect(ConnectError::Rejected)));
    assert_eq!(conn.rejection, Some(db_error("28000")));
}
