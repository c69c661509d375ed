use telemetry::observer::{ObserverEvent, TelemetryObserver};
use telemetry::store::{SubmitOutcome, TelemetrySqliteStore};

fn llm_event() -> ObserverEvent {
    ObserverEvent::LlmResponse {
        provider: "openai".into(),
        model: "gpt-4".into(),
        duration_ms: 200,
        success: true,
        error_message: None,
        tokens_in: Some(100),
        tokens_out: Some(50),
    }
}

fn tool_event() -> ObserverEvent {
    ObserverEvent::ToolCall {
        tool: "shell".into(),
        duration_ms: 50,
        success: true,
        arguments_hash: Some("abc123".into()),
        iteration: Some(0),
    }
}

#[test]
fn observer_records_llm_response() {
    let tmp = tempfile::TempDir::new().unwrap();
    let db_path = tmp.path().join("research.db").to_str().unwrap().to_string();
    let (mut store, mut writer) = TelemetrySqliteStore::open(db_path.clone(), 64).unwrap();
    let mut obs = TelemetryObserver::new("test-sess".into());

    obs.record_event_to(&store, &llm_event());
    store.shutdown();
    while writer.run_once() {}

    let conn = rusqlite::Connection::open(&db_path).unwrap();
    let count: i64 = conn
        .query_row("SELECT COUNT(*) FROM action_events", [], |r| r.get(0))
        .unwrap();
    assert_eq!(count, 1);

    let event_type: String = conn
        .query_row("SELECT event_type FROM action_events LIMIT 1", [], |r| r.get(0))
        .unwrap();
    assert_eq!(event_type, "llm_response");
}

#[test]
fn observer_records_tool_call() {
    let tmp = tempfile::TempDir::new().unwrap();
    let db_path = tmp.path().join("research.db").to_str().unwrap().to_string();
    let (mut store, mut writer) = TelemetrySqliteStore::open(db_path.clone(), 64).unwrap();
    let mut obs = TelemetryObserver::new("test-sess".into());

    obs.record_event_to(&store, &tool_event());
    store.shutdown();
    while writer.run_once() {}

    let conn = rusqlite::Connection::open(&db_path).unwrap();
    let tool_name: String = conn
        .query_row("SELECT tool_name FROM action_events LIMIT 1", [], |r| r.get(0))
        .unwrap();
    assert_eq!(tool_name, "shell");
}

#[test]
fn record_event_to_reports_the_submission() {
    let tmp = tempfile::TempDir::new().unwrap();
    let db_path = tmp.path().join("research.db").to_str().unwrap().to_string();
    let (mut store, mut writer) = TelemetrySqliteStore::open(db_path, 8).unwrap();
    let mut obs = TelemetryObserver::new("test-sess".into());

    assert_eq!(
        obs.record_event_to(&store, &llm_event()),
        Some(SubmitOutcome::Accepted)
    );
    assert_eq!(obs.record_event_to(&store, &ObserverEvent::TurnComplete), None);
    store.shutdown();
    assert_eq!(
        obs.record_event_to(&store, &tool_event()),
        Some(SubmitOutcome::Closed)
    );
    while writer.run_once() {}
}

#[test]
fn turn_complete_resets_counters() {
    let mut obs = TelemetryObserver::new("test-sess".into());

    let rec = obs.record_event(&ObserverEvent::LlmResponse {
        provider: "test".into(),
        model: "test".into(),
        duration_ms: 1,
        success: true,
        error_message: None,
        tokens_in: None,
        tokens_out: None,
    });
    assert!(rec.is_some());

    assert_eq!(obs.sequence_counter, 1);
    assert_eq!(obs.turn_counter, 0);

    let none = obs.record_event(&ObserverEvent::TurnComplete);
    assert!(none.is_none());

    assert_eq!(obs.sequence_counter, 0);
    assert_eq!(obs.turn_counter, 1);
    assert!(obs.turn_action_sequence.is_empty());
    assert!(obs.previous_action_type.is_none());
}

#[test]
fn sequence_indices_are_contiguous_within_turn() {
    let mut obs = TelemetryObserver::new("s".into());
    let a = obs.record_event(&llm_event()).unwrap();
    let b = obs.record_event(&tool_event()).unwrap();
    let c = obs.record_event(&tool_event()).unwrap();
    assert_eq!(a.sequence_index, 0);
    assert_eq!(b.sequence_index, 1);
    assert_eq!(c.sequence_index, 2);

    obs.record_event(&ObserverEvent::TurnComplete);
    let d = obs.record_event(&llm_event()).unwrap();
    assert_eq!(d.sequence_index, 0);
}

#[test]
fn turn_id_follows_session_and_turn() {
    let mut obs = TelemetryObserver::new("sess".into());
    assert_eq!(obs.turn_id(), "sess-t0");
    obs.record_event(&ObserverEvent::TurnComplete);
    assert_eq!(obs.turn_id(), "sess-t1");
    obs.turn_counter = 12;
    assert_eq!(obs.turn_id(), "sess-t12");
}

#[test]
fn user_initiated_flag_is_one_shot() {
    let mut obs = TelemetryObserver::new("s".into());
    obs.record_event(&ObserverEvent::AgentStart);
    let first = obs.record_event(&llm_event()).unwrap();
    assert!(first.is_user_initiated);
    let second = obs.record_event(&llm_event()).unwrap();
    assert!(!second.is_user_initiated);
}

#[test]
fn tool_call_records_are_never_user_initiated() {
    let mut obs = TelemetryObserver::new("s".into());
    obs.record_event(&ObserverEvent::AgentStart);
    let rec = obs.record_event(&tool_event()).unwrap();
    assert!(!rec.is_user_initiated);
}

#[test]
fn kind_history_snapshot_precedes_event() {
    let mut obs = TelemetryObserver::new("s".into());
    let first = obs.record_event(&llm_event()).unwrap();
    assert_eq!(first.turn_action_sequence, Some("[]".to_string()));
    assert_eq!(first.previous_action_type, None);
    let second = obs.record_event(&tool_event()).unwrap();
    assert_eq!(
        second.turn_action_sequence,
        Some(r#"["llm_response"]"#.to_string())
    );
    assert_eq!(second.previous_action_type, Some("llm_response".to_string()));
}

#[test]
fn ignored_events_produce_no_record() {
    let mut obs = TelemetryObserver::new("s".into());
    assert!(obs.record_event(&ObserverEvent::Other).is_none());
    assert!(obs.record_event(&ObserverEvent::AgentStart).is_none());
    assert_eq!(obs.sequence_counter, 0);
}
