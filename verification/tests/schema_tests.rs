use telemetry::schema::{
    ACTION_EVENTS_DDL, PRAGMAS, SYSTEM_SAMPLES_DDL, TOOL_EMBEDDINGS_CACHE_DDL,
};

#[test]
fn ddl_executes_on_in_memory_db() {
    let conn = rusqlite::Connection::open_in_memory().unwrap();
    conn.execute_batch(PRAGMAS).unwrap();
    conn.execute_batch(ACTION_EVENTS_DDL).unwrap();
    conn.execute_batch(SYSTEM_SAMPLES_DDL).unwrap();
    conn.execute_batch(TOOL_EMBEDDINGS_CACHE_DDL).unwrap();
}

#[test]
fn ddl_is_idempotent() {
    let conn = rusqlite::Connection::open_in_memory().unwrap();
    conn.execute_batch(PRAGMAS).unwrap();
    // Execute twice to verify IF NOT EXISTS
    conn.execute_batch(ACTION_EVENTS_DDL).unwrap();
    conn.execute_batch(ACTION_EVENTS_DDL).unwrap();
    conn.execute_batch(SYSTEM_SAMPLES_DDL).unwrap();
    conn.execute_batch(SYSTEM_SAMPLES_DDL).unwrap();
}
