use telemetry::chan::RecvOutcome;
use telemetry::store::{
    classify_recv, ActionRecord, StoreError, SubmitOutcome, SystemSample, TelemetrySqliteStore,
    WriteOp, WriterStep,
};

fn make_action_record() -> ActionRecord {
    ActionRecord {
        ts: "2026-01-01T00:00:00Z".into(),
        ts_epoch_ms: 1_767_225_600_000,
        session_id: "sess-1".into(),
        turn_id: "turn-1".into(),
        sequence_index: 0,
        event_type: "llm_response".into(),
        provider: Some("openai".into()),
        model: Some("gpt-4".into()),
        tool_name: None,
        tool_type_embedding: None,
        arguments_hash: None,
        tool_success: None,
        duration_ms: Some(150),
        tokens_in: Some(100),
        tokens_out: Some(50),
        is_user_initiated: true,
        iteration_index: 0,
        previous_action_type: None,
        turn_action_sequence: Some(r#"["llm_response"]"#.into()),
        error_message: None,
    }
}

fn open_store(dir: &tempfile::TempDir, capacity: usize) -> (TelemetrySqliteStore, telemetry::store::WriterHandle, String) {
    let db_path = dir.path().join("research.db").to_str().unwrap().to_string();
    let (store, writer) = TelemetrySqliteStore::open(db_path.clone(), capacity).unwrap();
    (store, writer, db_path)
}

#[test]
fn store_open_and_insert_action() {
    let tmp = tempfile::TempDir::new().unwrap();
    let (mut store, mut writer, db_path) = open_store(&tmp, 10);
    store.submit_action(make_action_record());
    store.shutdown();
    while writer.run_once() {}

    let conn = rusqlite::Connection::open(&db_path).unwrap();
    let count: i64 = conn
        .query_row("SELECT COUNT(*) FROM action_events", [], |r| r.get(0))
        .unwrap();
    assert_eq!(count, 1);
}

#[test]
fn store_open_and_insert_system_sample() {
    let tmp = tempfile::TempDir::new().unwrap();
    let (mut store, mut writer, db_path) = open_store(&tmp, 10);
    store.submit_system_sample(SystemSample {
        ts: "2026-01-01T00:00:01Z".into(),
        ts_epoch_ms: 1_767_225_601_000,
        cpu_usage_pct: "23.5".into(),
        memory_used_bytes: 1_000_000,
        memory_total_bytes: 8_000_000,
        process_count: 120,
        process_spawn_rate: 2,
        file_read_bytes: 4096,
        file_write_bytes: 2048,
        net_connections: 15,
        dest_ip_entropy: "2.3".into(),
        syscall_freq_json: None,
    });
    store.shutdown();
    while writer.run_once() {}

    let conn = rusqlite::Connection::open(&db_path).unwrap();
    let count: i64 = conn
        .query_row("SELECT COUNT(*) FROM system_samples", [], |r| r.get(0))
        .unwrap();
    assert_eq!(count, 1);
    // The fractional columns arrive as text but are stored as REAL values.
    let cpu: f64 = conn
        .query_row("SELECT cpu_usage_pct FROM system_samples LIMIT 1", [], |r| r.get(0))
        .unwrap();
    assert_eq!(cpu, 23.5);
    let entropy: f64 = conn
        .query_row("SELECT dest_ip_entropy FROM system_samples LIMIT 1", [], |r| r.get(0))
        .unwrap();
    assert_eq!(entropy, 2.3);
}

#[test]
fn store_backpressure_does_not_panic() {
    let tmp = tempfile::TempDir::new().unwrap();
    let (mut store, mut writer, _db_path) = open_store(&tmp, 2);
    // Submit more than the capacity — should not panic, just drop.
    for _ in 0..20 {
        store.submit_action(make_action_record());
    }
    store.shutdown();
    while writer.run_once() {}
}

#[test]
fn submit_reports_drop_and_close() {
    let tmp = tempfile::TempDir::new().unwrap();
    let (mut store, mut writer, _db_path) = open_store(&tmp, 2);
    // The writer is not draining yet, so the third record finds the queue
    // at capacity and is dropped.
    assert_eq!(store.submit_action(make_action_record()), SubmitOutcome::Accepted);
    assert_eq!(store.submit_action(make_action_record()), SubmitOutcome::Accepted);
    assert_eq!(store.submit_action(make_action_record()), SubmitOutcome::Dropped);
    store.shutdown();
    assert_eq!(store.submit_action(make_action_record()), SubmitOutcome::Closed);
    while writer.run_once() {}
}

#[test]
fn writer_routing_decisions() {
    assert!(matches!(classify_recv(RecvOutcome::Disconnected), WriterStep::Stop));
    assert!(matches!(
        classify_recv(RecvOutcome::Item(WriteOp::Shutdown)),
        WriterStep::Stop
    ));
    assert!(matches!(classify_recv(RecvOutcome::Empty), WriterStep::Pause));
    let op = WriteOp::ActionEvent(Box::new(make_action_record()));
    match classify_recv(RecvOutcome::Item(op)) {
        WriterStep::Enqueue(WriteOp::ActionEvent(rec)) => {
            assert_eq!(rec.session_id, "sess-1");
        }
        _ => panic!("an ordinary operation must join the batch"),
    }
}

#[test]
fn store_open_fails_without_directory() {
    let tmp = tempfile::TempDir::new().unwrap();
    let missing = tmp
        .path()
        .join("no-such-dir")
        .join("research.db")
        .to_str()
        .unwrap()
        .to_string();
    let r = TelemetrySqliteStore::open(missing, 4);
    assert!(matches!(r, Err(StoreError::OpenDb)));
}

#[test]
fn open_reports_schema_failure() {
    let tmp = tempfile::TempDir::new().unwrap();
    let db_path = tmp.path().join("research.db").to_str().unwrap().to_string();
    // Pre-create the action table with incompatible columns: table creation
    // is skipped (IF NOT EXISTS) but the index on session_id cannot be built.
    {
        let conn = rusqlite::Connection::open(&db_path).unwrap();
        conn.execute_batch("CREATE TABLE action_events (only_col INTEGER);")
            .unwrap();
    }
    let r = TelemetrySqliteStore::open(db_path, 4);
    assert!(matches!(r, Err(StoreError::Schema)));
}

#[test]
fn shutdown_is_idempotent_and_flushes() {
    let tmp = tempfile::TempDir::new().unwrap();
    let (mut store, mut writer, db_path) = open_store(&tmp, 10);
    store.submit_action(make_action_record());
    store.submit_action(make_action_record());
    store.shutdown();
    store.shutdown();
    // Submissions after shutdown are dropped, not queued.
    store.submit_action(make_action_record());
    while writer.run_once() {}
    store.shutdown();

    let conn = rusqlite::Connection::open(&db_path).unwrap();
    let count: i64 = conn
        .query_row("SELECT COUNT(*) FROM action_events", [], |r| r.get(0))
        .unwrap();
    assert_eq!(count, 2);
}

#[test]
fn records_commit_in_submission_order() {
    let tmp = tempfile::TempDir::new().unwrap();
    let (mut store, mut writer, db_path) = open_store(&tmp, 10);
    for name in ["first", "second", "third"] {
        let mut rec = make_action_record();
        rec.event_type = "tool_call".into();
        rec.tool_name = Some(name.to_string());
        store.submit_action(rec);
    }
    store.shutdown();
    while writer.run_once() {}

    let conn = rusqlite::Connection::open(&db_path).unwrap();
    let mut stmt = conn
        .prepare("SELECT tool_name FROM action_events ORDER BY id ASC")
        .unwrap();
    let names: Vec<String> = stmt
        .query_map([], |r| r.get(0))
        .unwrap()
        .map(|r| r.unwrap())
        .collect();
    assert_eq!(names, vec!["first", "second", "third"]);
}

#[test]
fn action_record_round_trips_unchanged() {
    let tmp = tempfile::TempDir::new().unwrap();
    let (mut store, mut writer, db_path) = open_store(&tmp, 10);
    let mut rec = make_action_record();
    rec.event_type = "tool_call".into();
    rec.tool_name = Some("shell".into());
    rec.tool_success = Some(true);
    rec.arguments_hash = Some("abc123".into());
    rec.duration_ms = Some(50);
    store.submit_action(rec);
    store.shutdown();
    while writer.run_once() {}

    let conn = rusqlite::Connection::open(&db_path).unwrap();
    let row: (String, String, i64, Option<String>, Option<i64>) = conn
        .query_row(
            "SELECT event_type, tool_name, tool_success, arguments_hash, duration_ms
             FROM action_events LIMIT 1",
            [],
            |r| {
                Ok((r.get(0)?, r.get(1)?, r.get(2)?, r.get(3)?, r.get(4)?))
            },
        )
        .unwrap();
    assert_eq!(row.0, "tool_call");
    assert_eq!(row.1, "shell");
    assert_eq!(row.2, 1);
    assert_eq!(row.3, Some("abc123".to_string()));
    assert_eq!(row.4, Some(50));
}
