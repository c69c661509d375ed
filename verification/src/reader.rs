//! Row types for the read-only export path.
//!
//! The export itself is a pair of parameterized SELECTs over a second,
//! read-only connection (safe against the writer because the store runs in
//! write-ahead-logging mode); it lives with the embedding program. The rows
//! it returns are these.

use vstd::prelude::*;

verus! {

/// Action event record as the download path serializes it.
#[derive(Debug, Clone)]
pub struct ActionEventRow {
    pub ts: String,
    pub ts_epoch_ms: i64,
    pub session_id: String,
    pub turn_id: String,
    pub sequence_index: i64,
    pub event_type: String,
    pub provider: Option<String>,
    pub model: Option<String>,
    pub tool_name: Option<String>,
    pub arguments_hash: Option<String>,
    pub tool_success: Option<bool>,
    pub duration_ms: Option<i64>,
    pub tokens_in: Option<i64>,
    pub tokens_out: Option<i64>,
    pub is_user_initiated: bool,
    pub iteration_index: i64,
    pub previous_action_type: Option<String>,
    pub turn_action_sequence: Option<String>,
    pub error_message: Option<String>,
}

} // verus!
