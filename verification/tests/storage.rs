use procnet::database::Database;
use procnet::session::{
    AlertKind, AlertRecord, EndpointSummary, ProcessSessionSummary, SessionBucket, SessionDetail,
    SessionId, SessionRecord, SessionStatus,
};
use procnet::session_export::{render_session_csv, render_session_json, render_session_markdown};
use procnet::storage::{
    check_existing_version, check_migrated_version, decode_alert, decode_bucket, decode_endpoint,
    decode_process, decode_session, encode_alert, encode_bucket, encode_endpoint, encode_process,
    AlertRow, BucketRow, RowError, SessionRow, SCHEMA_VERSION,
};

fn detail() -> SessionDetail {
    SessionDetail {
        session: SessionRecord {
            id: SessionId(1),
            name: "demo \"x\"".to_owned(),
            notes: String::new(),
            started_at_unix_nanos: 1,
            ended_at_unix_nanos: Some(2),
            status: SessionStatus::Completed,
            send_bytes: 3,
            receive_bytes: 4,
            event_count: 5,
        },
        buckets: vec![],
        processes: vec![],
        endpoints: vec![],
        alerts: vec![],
    }
}

fn bucket(start: u64, send: u64, receive: u64, count: u64) -> SessionBucket {
    SessionBucket {
        start_unix_nanos: start,
        send_bytes: send,
        receive_bytes: receive,
        event_count: count,
    }
}

fn process(pid: u32, name: &str, path: Option<&str>, send: u64) -> ProcessSessionSummary {
    ProcessSessionSummary {
        pid,
        started_at_unix_nanos: 7,
        name: name.to_owned(),
        image_path: path.map(|path| path.to_owned()),
        send_bytes: send,
        receive_bytes: 1,
        connection_count: 2,
    }
}

fn endpoint(address: &str, first: u64, last: u64) -> EndpointSummary {
    EndpointSummary {
        protocol: "tcp".to_owned(),
        remote_address: address.to_owned(),
        process_name: "app".to_owned(),
        first_seen_unix_nanos: first,
        last_seen_unix_nanos: last,
        connection_count: 1,
    }
}

fn alert(id: i64, session: SessionId, occurred: u64) -> AlertRecord {
    AlertRecord {
        id,
        session_id: session,
        occurred_at_unix_nanos: occurred,
        kind: AlertKind::RiskEvent,
        title: "title".to_owned(),
        detail: "detail".to_owned(),
        process_name: None,
        remote_address: Some("1.2.3.4:5".to_owned()),
    }
}

#[test]
fn complete_exports_include_schema_and_sections() {
    let value = detail();
    assert!(render_session_json(&value).contains("\\\"x\\\""));
    assert!(render_session_csv(&value).starts_with("section,"));
    assert!(render_session_markdown(&value).contains("进程排行"));
}

#[test]
fn migration_session_lifecycle_and_cascade_are_durable() {
    let mut database = Database::open_in_memory();
    assert_eq!(database.schema_version(), SCHEMA_VERSION);
    let id = database.start_session("Demo", "notes", 100).unwrap();
    database
        .append_batch(id, &[bucket(100, 12, 34, 2)], &[], &[], &[])
        .unwrap();
    assert!(database.finish_session(id, 200, SessionStatus::Completed).unwrap());
    let record = database.session(id).unwrap();
    assert_eq!(record.status, SessionStatus::Completed);
    assert_eq!((record.send_bytes, record.receive_bytes), (12, 34));
    assert_eq!(database.session_buckets(id).len(), 1);
    assert_eq!(database.delete_sessions_ended_before(201).unwrap(), 1);
    assert!(database.session(id).is_none());
}

#[test]
fn startup_recovery_only_interrupts_active_sessions() {
    let mut database = Database::open_in_memory();
    let interrupted = database.start_session("crashed", "", 100).unwrap();
    let completed = database.start_session("done", "", 110).unwrap();
    database.finish_session(completed, 120, SessionStatus::Completed).unwrap();
    assert_eq!(database.recover_interrupted_sessions(200).unwrap(), 1);
    assert_eq!(database.session(interrupted).unwrap().status, SessionStatus::Interrupted);
    assert_eq!(database.session(completed).unwrap().status, SessionStatus::Completed);
    assert_eq!(database.recover_interrupted_sessions(300).unwrap(), 0);
}

#[test]
fn exact_session_delete_rejects_active_and_cascades_completed_children() {
    let mut database = Database::open_in_memory();
    let active = database.start_session("active", "", 100).unwrap();
    let completed = database.start_session("completed", "", 110).unwrap();
    database
        .append_batch(completed, &[bucket(110, 1, 2, 1)], &[], &[], &[])
        .unwrap();
    database.finish_session(completed, 200, SessionStatus::Completed).unwrap();

    assert!(!database.delete_session(active));
    assert!(database.session(active).is_some());
    assert!(database.delete_session(completed));
    assert!(database.session(completed).is_none());
    assert!(database.session_buckets(completed).is_empty());
}

#[test]
fn future_schema_is_rejected_without_downgrade() {
    let error = check_existing_version(999).unwrap_err();
    assert!(error.message().contains("newer than supported"));
    assert_eq!(
        error.message(),
        "invalid persisted data: database schema 999 is newer than supported version 1"
    );
}

#[test]
fn schema_versions_that_are_known_are_accepted() {
    assert!(check_existing_version(0).is_ok());
    assert!(check_existing_version(1).is_ok());
    assert!(check_migrated_version(1).is_ok());
    assert_eq!(
        check_migrated_version(0).unwrap_err().message(),
        "invalid persisted data: unsupported schema version 0; expected 1"
    );
}

#[test]
fn a_finished_session_is_not_recording() {
    let mut database = Database::open_in_memory();
    let id = database.start_session(" padded ", "\tnotes\n", 100).unwrap();
    assert_eq!(database.session(id).unwrap().name, "padded");
    assert_eq!(database.session(id).unwrap().notes, "notes");
    assert_eq!(
        database
            .finish_session(id, 1, SessionStatus::Recording)
            .unwrap_err()
            .message(),
        "invalid persisted data: finished session cannot retain recording status"
    );
    assert!(database.finish_session(id, 150, SessionStatus::Interrupted).unwrap());
    assert!(!database.finish_session(id, 160, SessionStatus::Completed).unwrap());
    assert_eq!(database.session(id).unwrap().ended_at_unix_nanos, Some(150));
}

#[test]
fn numbers_that_do_not_fit_are_refused() {
    let mut database = Database::open_in_memory();
    assert_eq!(
        database.start_session("x", "", u64::MAX).unwrap_err().message(),
        "invalid persisted data: value 18446744073709551615 exceeds SQLite INTEGER"
    );
    let id = database.start_session("x", "", 1).unwrap();
    assert!(database.append_batch(id, &[bucket(1, u64::MAX, 0, 0)], &[], &[], &[]).is_err());
    let most = i64::MAX as u64;
    assert_eq!(
        database
            .append_batch(id, &[bucket(1, most, 0, 0), bucket(2, 1, 0, 0)], &[], &[], &[])
            .unwrap_err()
            .message(),
        "SQLite error: integer overflow"
    );
    assert!(database.session_buckets(id).is_empty());
    assert!(database.finish_session(id, u64::MAX, SessionStatus::Completed).is_err());
    assert!(database.recover_interrupted_sessions(u64::MAX).is_err());
    assert!(database.delete_sessions_ended_before(u64::MAX).is_err());
}

#[test]
fn a_batch_is_stored_whole_or_not_at_all() {
    let mut database = Database::open_in_memory();
    let id = database.start_session("x", "", 1).unwrap();
    let error = database
        .append_batch(id, &[bucket(1, 1, 1, 1)], &[], &[], &[alert(1, SessionId(77), 5)])
        .unwrap_err();
    assert_eq!(error.message(), "SQLite error: FOREIGN KEY constraint failed");
    assert!(database.session_buckets(id).is_empty());
    assert_eq!(database.session(id).unwrap().send_bytes, 0);
    assert!(database.append_batch(SessionId(77), &[bucket(1, 1, 1, 1)], &[], &[], &[]).is_err());
    assert!(database.append_batch(SessionId(77), &[], &[], &[], &[]).is_ok());
}

#[test]
fn rows_of_one_key_are_merged() {
    let mut database = Database::open_in_memory();
    let id = database.start_session("x", "", 1).unwrap();
    database
        .append_batch(
            id,
            &[bucket(1, 10, 20, 1), bucket(2, 1, 1, 1)],
            &[process(42, "app.exe", Some("C:\\app.exe"), 5)],
            &[endpoint("a", 10, 20)],
            &[alert(1, id, 5)],
        )
        .unwrap();
    database
        .append_batch(
            id,
            &[bucket(1, 11, 21, 2)],
            &[process(42, "PID 42", None, 9)],
            &[endpoint("a", 15, 30), endpoint("b", 5, 6)],
            &[AlertRecord { title: "other".to_owned(), ..alert(1, id, 6) }, alert(2, id, 5)],
        )
        .unwrap();
    assert_eq!(database.session_buckets(id), vec![bucket(1, 11, 21, 2), bucket(2, 1, 1, 1)]);
    let record = database.session(id).unwrap();
    assert_eq!((record.send_bytes, record.receive_bytes, record.event_count), (12, 22, 3));
    assert_eq!(database.session_processes(id), vec![process(42, "app.exe", Some("C:\\app.exe"), 9)]);
    assert_eq!(
        database.session_endpoints(id),
        vec![endpoint("a", 10, 30), endpoint("b", 5, 6)]
    );
    assert_eq!(database.session_alerts(id), vec![alert(2, id, 5), alert(1, id, 5)]);
}

#[test]
fn sessions_and_rows_are_listed_in_order() {
    let mut database = Database::open_in_memory();
    let first = database.start_session("first", "", 100).unwrap();
    let second = database.start_session("second", "", 300).unwrap();
    let third = database.start_session("third", "", 200).unwrap();
    assert_eq!((first, second, third), (SessionId(1), SessionId(2), SessionId(3)));
    let ids: Vec<i64> = database.list_sessions(2).iter().map(|record| record.id.0).collect();
    assert_eq!(ids, vec![2, 3]);
    database
        .append_batch(
            first,
            &[],
            &[process(1, "b", None, 5), process(2, "a", None, 5), process(3, "c", None, 9)],
            &[],
            &[],
        )
        .unwrap();
    let names: Vec<String> =
        database.session_processes(first).into_iter().map(|process| process.name).collect();
    assert_eq!(names, vec!["c".to_owned(), "a".to_owned(), "b".to_owned()]);
}

#[test]
fn what_was_told_of_a_session_is_put_back() {
    let mut database = Database::open_in_memory();
    let id = database.start_session("x", "", 1).unwrap();
    database
        .append_batch(
            id,
            &[bucket(1, 10, 20, 1)],
            &[process(42, "app.exe", None, 5)],
            &[endpoint("a", 10, 20)],
            &[alert(1, id, 5), alert(2, id, 5)],
        )
        .unwrap();
    let told = database.detail(id).unwrap();
    let mut other = Database::open_in_memory();
    other.restore_session(told.clone());
    assert_eq!(other.detail(id).unwrap(), told);
    assert_eq!(other.start_session("next", "", 2).unwrap(), SessionId(2));
}

#[test]
fn a_free_identity_is_taken_once_the_largest_is() {
    let mut database = Database::open_in_memory();
    let first = database.start_session("x", "", 1).unwrap();
    let mut told = database.detail(first).unwrap();
    told.session.id = SessionId(i64::MAX);
    database.restore_session(told);
    assert_eq!(database.start_session("y", "", 2), Ok(SessionId(2)));
    assert_eq!(database.start_session("z", "", 3), Ok(SessionId(3)));
    assert_eq!(database.list_sessions(9).len(), 4);
}

#[test]
fn settings_are_kept_by_name() {
    let mut database = Database::open_in_memory();
    assert_eq!(database.setting("retention_days"), None);
    database.set_setting("retention_days", "7");
    database.set_setting("retention_days", "8");
    database.set_setting("spike_multiplier", "3");
    assert_eq!(database.setting("retention_days").as_deref(), Some("8"));
    assert_eq!(database.setting("spike_multiplier").as_deref(), Some("3"));
}

#[test]
fn rows_are_read_back_as_they_were_written() {
    let id = SessionId(3);
    let row = encode_bucket(&bucket(1, 2, 3, 4)).unwrap();
    assert_eq!(decode_bucket(&row).unwrap(), bucket(1, 2, 3, 4));
    let row = encode_process(&process(4, "n", Some("p"), 9)).unwrap();
    assert_eq!(decode_process(row).unwrap(), process(4, "n", Some("p"), 9));
    let row = encode_endpoint(&endpoint("a", 1, 2)).unwrap();
    assert_eq!(decode_endpoint(row).unwrap(), endpoint("a", 1, 2));
    let row = encode_alert(&alert(1, id, 2)).unwrap();
    assert_eq!(row.kind, "risk_event");
    assert_eq!(decode_alert(row).unwrap(), alert(1, id, 2));
}

#[test]
fn rows_that_mean_nothing_are_refused() {
    let row = SessionRow {
        id: 1,
        name: "n".to_owned(),
        notes: String::new(),
        started_at_ns: 1,
        ended_at_ns: None,
        status: "recording".to_owned(),
        send_bytes: 0,
        receive_bytes: 0,
        event_count: 0,
    };
    assert_eq!(decode_session(row.clone()).unwrap().status, SessionStatus::Recording);
    assert!(matches!(
        decode_session(SessionRow { status: "done".to_owned(), ..row.clone() }),
        Err(RowError::UnknownStatus)
    ));
    assert!(matches!(
        decode_session(SessionRow { started_at_ns: -1, ..row }),
        Err(RowError::OutOfRange)
    ));
    assert!(matches!(
        decode_bucket(&BucketRow { start_ns: -1, send_bytes: 0, receive_bytes: 0, event_count: 0 }),
        Err(RowError::OutOfRange)
    ));
    let row: AlertRow = encode_alert(&alert(1, SessionId(1), 2)).unwrap();
    assert!(matches!(
        decode_alert(AlertRow { kind: "other".to_owned(), ..row }),
        Err(RowError::UnknownKind)
    ));
}
