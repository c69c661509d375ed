use telemetry::store::{ActionRecord, TelemetrySqliteStore};

fn record_at(i: i64) -> ActionRecord {
    ActionRecord {
        ts: format!("2026-01-01T00:00:0{i}Z"),
        ts_epoch_ms: (i + 1) * 1000,
        session_id: "s1".into(),
        turn_id: "t1".into(),
        sequence_index: i,
        event_type: "tool_call".into(),
        provider: None,
        model: None,
        tool_name: Some("shell".into()),
        tool_type_embedding: None,
        arguments_hash: None,
        tool_success: Some(true),
        duration_ms: Some(10),
        tokens_in: None,
        tokens_out: None,
        is_user_initiated: false,
        iteration_index: 0,
        previous_action_type: None,
        turn_action_sequence: None,
        error_message: None,
    }
}

const EXPORT_SQL: &str = "SELECT ts_epoch_ms, event_type, tokens_in
     FROM action_events
     WHERE ts_epoch_ms >= ?1
     ORDER BY ts_epoch_ms ASC
     LIMIT ?2";

fn export_epochs(db_path: &str, since: i64, limit: i64) -> Vec<(i64, String, Option<i64>)> {
    let conn = rusqlite::Connection::open(db_path).unwrap();
    let mut stmt = conn.prepare(EXPORT_SQL).unwrap();
    let rows = stmt
        .query_map((since, limit), |r| Ok((r.get(0)?, r.get(1)?, r.get(2)?)))
        .unwrap();
    let mut out = Vec::new();
    for row in rows {
        out.push(row.unwrap());
    }
    out
}

#[test]
fn reader_exports_action_events() {
    let tmp = tempfile::TempDir::new().unwrap();
    let db_path = tmp.path().join("research.db").to_str().unwrap().to_string();
    let (mut store, mut writer) = TelemetrySqliteStore::open(db_path.clone(), 64).unwrap();
    store.submit_action(ActionRecord {
        ts: "2026-01-01T00:00:00Z".into(),
        ts_epoch_ms: 1_000,
        session_id: "s1".into(),
        turn_id: "t1".into(),
        sequence_index: 0,
        event_type: "llm_response".into(),
        provider: Some("openai".into()),
        model: Some("gpt-4".into()),
        tool_name: None,
        tool_type_embedding: None,
        arguments_hash: None,
        tool_success: None,
        duration_ms: Some(100),
        tokens_in: Some(50),
        tokens_out: Some(25),
        is_user_initiated: true,
        iteration_index: 0,
        previous_action_type: None,
        turn_action_sequence: None,
        error_message: None,
    });
    store.shutdown();
    while writer.run_once() {}

    let events = export_epochs(&db_path, 0, 100);
    assert_eq!(events.len(), 1);
    assert_eq!(events[0].1, "llm_response");
    assert_eq!(events[0].2, Some(50));
}

#[test]
fn reader_filters_by_since() {
    let tmp = tempfile::TempDir::new().unwrap();
    let db_path = tmp.path().join("research.db").to_str().unwrap().to_string();
    let (mut store, mut writer) = TelemetrySqliteStore::open(db_path.clone(), 64).unwrap();
    for i in 0..3 {
        store.submit_action(record_at(i));
    }
    store.shutdown();
    while writer.run_once() {}

    let events = export_epochs(&db_path, 2000, 100);
    assert_eq!(events.len(), 2); // ts_epoch_ms 2000 and 3000
}

#[test]
fn export_is_ascending_from_lower_bound() {
    let tmp = tempfile::TempDir::new().unwrap();
    let db_path = tmp.path().join("research.db").to_str().unwrap().to_string();
    let (mut store, mut writer) = TelemetrySqliteStore::open(db_path.clone(), 64).unwrap();
    // Submit out of epoch order within one producer's stream.
    store.submit_action(record_at(2));
    store.submit_action(record_at(0));
    store.submit_action(record_at(1));
    store.shutdown();
    while writer.run_once() {}

    let events = export_epochs(&db_path, 2000, 100);
    assert_eq!(events.len(), 2);
    assert_eq!(events[0].0, 2000);
    assert_eq!(events[1].0, 3000);
}
