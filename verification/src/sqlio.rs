//! Trusted surface over the SQLite connection.
//!
//! Whether any of these calls succeeds depends on the state of the disk and
//! of the database file, so each wrapper only reports the outcome; the
//! verified write path implements the failure policy (drop and continue)
//! around every outcome.

use vstd::prelude::*;
use crate::store::{ActionRecord, SystemSample};

verus! {

#[verifier::external_type_specification]
#[verifier::external_body]
pub struct ExConnection(rusqlite::Connection);

pub const ACTION_INSERT_SQL: &'static str = "\
INSERT INTO action_events (
    ts, ts_epoch_ms, session_id, turn_id, sequence_index, event_type,
    provider, model, tool_name, tool_type_embedding, arguments_hash,
    tool_success, duration_ms, tokens_in, tokens_out,
    is_user_initiated, iteration_index, previous_action_type,
    turn_action_sequence, error_message
) VALUES (?1,?2,?3,?4,?5,?6,?7,?8,?9,?10,?11,?12,?13,?14,?15,?16,?17,?18,?19,?20)";

/// The fractional columns arrive as decimal text; the REAL column affinity
/// is made explicit with a CAST so the stored value is numeric.
pub const SAMPLE_INSERT_SQL: &'static str = "\
INSERT INTO system_samples (
    ts, ts_epoch_ms, cpu_usage_pct, memory_used_bytes, memory_total_bytes,
    process_count, process_spawn_rate, file_read_bytes, file_write_bytes,
    net_connections, dest_ip_entropy, syscall_freq_json
) VALUES (?1,?2,CAST(?3 AS REAL),?4,?5,?6,?7,?8,?9,?10,CAST(?11 AS REAL),?12)";

/// Relies on rusqlite::Connection::open: opens (or creates) the database
/// file at the given path.
#[verifier::external_body]
pub fn open_db(path: &str) -> (r: Option<rusqlite::Connection>) {
    rusqlite::Connection::open(path).ok()
}

/// Relies on rusqlite::Connection::execute_batch: runs the statements in
/// `sql`; reports whether all of them succeeded.
#[verifier::external_body]
pub fn exec_sql(conn: &rusqlite::Connection, sql: &str) -> (ok: bool) {
    conn.execute_batch(sql).is_ok()
}

/// Relies on rusqlite::Connection::execute: binds the record's fields to the
/// action insert statement, in column order.
#[verifier::external_body]
pub fn insert_action_row(conn: &rusqlite::Connection, r: &ActionRecord) -> (ok: bool) {
    let p: [&dyn rusqlite::ToSql; 20] = [
        &r.ts, &r.ts_epoch_ms, &r.session_id, &r.turn_id, &r.sequence_index,
        &r.event_type, &r.provider, &r.model, &r.tool_name, &r.tool_type_embedding,
        &r.arguments_hash, &r.tool_success, &r.duration_ms, &r.tokens_in,
        &r.tokens_out, &r.is_user_initiated, &r.iteration_index,
        &r.previous_action_type, &r.turn_action_sequence, &r.error_message,
    ];
    conn.execute(ACTION_INSERT_SQL, &p[..]).is_ok()
}

/// Relies on rusqlite::Connection::execute: binds the sample's fields to the
/// sample insert statement, in column order.
#[verifier::external_body]
pub fn insert_sample_row(conn: &rusqlite::Connection, s: &SystemSample) -> (ok: bool) {
    let p: [&dyn rusqlite::ToSql; 12] = [
        &s.ts, &s.ts_epoch_ms, &s.cpu_usage_pct, &s.memory_used_bytes,
        &s.memory_total_bytes, &s.process_count, &s.process_spawn_rate,
        &s.file_read_bytes, &s.file_write_bytes, &s.net_connections,
        &s.dest_ip_entropy, &s.syscall_freq_json,
    ];
    conn.execute(SAMPLE_INSERT_SQL, &p[..]).is_ok()
}

} // verus!
