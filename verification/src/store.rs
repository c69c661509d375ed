//! Persistent telemetry store backed by a dedicated SQLite writer thread.
//!
//! Producers hand records to `submit_action` / `submit_system_sample`, which
//! enqueue onto a bounded channel and return immediately; when the queue is
//! at capacity the new record is dropped, so a caller is never blocked and
//! memory stays bounded. One background worker drains the queue, groups the
//! operations into batches of at most ten, and commits each batch in a single
//! transaction. A row that fails to insert is skipped without aborting its
//! batch; a transaction that fails to begin is abandoned and the worker moves
//! on to the next batch.

use vstd::prelude::*;
use crate::chan::{channel_pair, recv_op, recv_timeout_op, try_recv_op, try_send_op, RecvOutcome};
use crate::schema;
use crate::sqlio::{exec_sql, insert_action_row, insert_sample_row, open_db};
use std::sync::mpsc::{Receiver, SyncSender};

verus! {

/// A single action event record ready for insertion.
#[derive(Debug, Clone)]
pub struct ActionRecord {
    pub ts: String,
    pub ts_epoch_ms: i64,
    pub session_id: String,
    pub turn_id: String,
    pub sequence_index: i64,
    pub event_type: String,
    pub provider: Option<String>,
    pub model: Option<String>,
    pub tool_name: Option<String>,
    pub tool_type_embedding: Option<Vec<u8>>,
    pub arguments_hash: Option<String>,
    pub tool_success: Option<bool>,
    pub duration_ms: Option<i64>,
    pub tokens_in: Option<i64>,
    pub tokens_out: Option<i64>,
    pub is_user_initiated: bool,
    pub iteration_index: i64,
    pub previous_action_type: Option<String>,
    pub turn_action_sequence: Option<String>,
    pub error_message: Option<String>,
}

/// A single system metrics sample ready for insertion.
///
/// The two fractional measurements (CPU percentage and destination-address
/// entropy) are carried as decimal text and stored into REAL columns; every
/// other field is integral.
#[derive(Debug, Clone)]
pub struct SystemSample {
    pub ts: String,
    pub ts_epoch_ms: i64,
    pub cpu_usage_pct: String,
    pub memory_used_bytes: i64,
    pub memory_total_bytes: i64,
    pub process_count: i64,
    pub process_spawn_rate: i64,
    pub file_read_bytes: i64,
    pub file_write_bytes: i64,
    pub net_connections: i64,
    pub dest_ip_entropy: String,
    pub syscall_freq_json: Option<String>,
}

/// Operations the writer thread can perform.
pub enum WriteOp {
    ActionEvent(Box<ActionRecord>),
    SystemSample(SystemSample),
    Shutdown,
}

/// Why the store could not be brought up.
#[derive(Debug, Clone, PartialEq, Eq, Structural)]
pub enum StoreError {
    /// The telemetry directory could not be created.
    CreateDir,
    /// The database file could not be opened.
    OpenDb,
    /// A pragma or schema statement failed.
    Schema,
}

/// What one non-blocking submission attempt did. Submission is
/// fire-and-forget for the caller, but the outcome is reported so the
/// embedding program can raise its overload warning on a drop.
#[derive(Debug, Clone, Copy, PartialEq, Eq, Structural)]
pub enum SubmitOutcome {
    /// The record is in the queue.
    Accepted,
    /// The queue was at capacity: the newest record was sacrificed to keep
    /// the caller unblocked and memory bounded.
    Dropped,
    /// The store is shut down, or the writer side is gone; the record was
    /// discarded silently.
    Closed,
}

/// Upper bound on how many queued operations one transaction commits.
pub const BATCH_MAX: usize = 10;

/// Persistent telemetry store: the submission side of the pipeline.
pub struct TelemetrySqliteStore {
    sender: Option<SyncSender<WriteOp>>,
    db_path: String,
}

/// The consuming side of the pipeline: the sole owner of the writable
/// connection. The worker's life is `run_once` called until it returns
/// false; the embedding program gives that loop a dedicated execution
/// context and, for a graceful stop, waits for it to finish after calling
/// the store's `shutdown`.
pub struct WriterHandle {
    conn: rusqlite::Connection,
    rx: Receiver<WriteOp>,
}

/// What the worker does with one receive outcome.
pub enum WriterStep {
    /// The operation joins the batch being assembled.
    Enqueue(WriteOp),
    /// Nothing was available: move on with what is buffered.
    Pause,
    /// The shutdown sentinel was seen or every producer is gone: flush
    /// whatever is buffered, then stop.
    Stop,
}

/// The worker's routing decision for one receive outcome: the shutdown
/// sentinel and a closed channel stop the worker, an ordinary operation
/// joins the batch, and an empty attempt pauses the assembly.
pub open spec fn step_of(outcome: RecvOutcome) -> WriterStep {
    match outcome {
        RecvOutcome::Item(op) => if op is Shutdown {
            WriterStep::Stop
        } else {
            WriterStep::Enqueue(op)
        },
        RecvOutcome::Empty => WriterStep::Pause,
        RecvOutcome::Disconnected => WriterStep::Stop,
    }
}

/// Route one receive outcome exactly as `step_of` says.
pub fn classify_recv(outcome: RecvOutcome) -> (r: WriterStep)
    ensures
        r == step_of(outcome),
        r is Stop <==> (outcome is Disconnected || (outcome matches RecvOutcome::Item(op) && op
            is Shutdown)),
        r is Pause <==> outcome is Empty,
{
    match outcome {
        RecvOutcome::Item(op) => match op {
            WriteOp::Shutdown => WriterStep::Stop,
            other => WriterStep::Enqueue(other),
        },
        RecvOutcome::Empty => WriterStep::Pause,
        RecvOutcome::Disconnected => WriterStep::Stop,
    }
}

impl WriterHandle {
    /// One worker cycle: block until at least one operation is available,
    /// opportunistically assemble a batch, and commit it in one
    /// transaction. Every receive outcome is routed by `classify_recv`,
    /// whose contract fixes the decision; `more` is false exactly when a
    /// `Stop` decision was taken, and every `Stop` flushes what is buffered
    /// first, so nothing submitted before shutdown is left uncommitted.
    pub fn run_once(&mut self) -> (more: bool) {
        let mut batch: Vec<WriteOp> = Vec::new();
        // Block on the first operation; a blocking receive never reports
        // Empty, so a Pause is unreachable here and yields a fresh cycle.
        match classify_recv(recv_op(&self.rx)) {
            WriterStep::Stop => {
                flush_batch(&self.conn, &batch);
                return false;
            },
            WriterStep::Enqueue(op) => batch.push(op),
            WriterStep::Pause => {
                return true;
            },
        }
        // Opportunistically drain more without blocking, up to the batch
        // ceiling.
        while batch.len() < BATCH_MAX
            invariant
                batch.len() <= BATCH_MAX,
            decreases BATCH_MAX - batch.len(),
        {
            match classify_recv(try_recv_op(&self.rx)) {
                WriterStep::Stop => {
                    flush_batch(&self.conn, &batch);
                    return false;
                },
                WriterStep::Enqueue(op) => batch.push(op),
                WriterStep::Pause => {
                    break;
                },
            }
        }
        // A lone operation waits briefly for company, to amortize the
        // transaction overhead without adding unbounded latency.
        if batch.len() == 1 {
            match classify_recv(recv_timeout_op(&self.rx, 1000)) {
                WriterStep::Stop => {
                    flush_batch(&self.conn, &batch);
                    return false;
                },
                WriterStep::Enqueue(op) => batch.push(op),
                WriterStep::Pause => {},
            }
        }
        flush_batch(&self.conn, &batch);
        true
    }
}

impl TelemetrySqliteStore {
    /// True once `shutdown` has taken the submission side down; submissions
    /// after that are dropped.
    pub closed spec fn is_shut(&self) -> bool {
        self.sender is None
    }

    pub closed spec fn spec_db_path(&self) -> Seq<char> {
        self.db_path@
    }

    /// Open (or create) the telemetry database at `db_path`, run the
    /// idempotent schema setup, and connect a queue of `buffer_capacity`
    /// pending operations to a writer ready to run.
    pub fn open(db_path: String, buffer_capacity: usize) -> (r: Result<
        (Self, WriterHandle),
        StoreError,
    >)
        ensures
            r matches Ok(p) ==> !p.0.is_shut() && p.0.spec_db_path() == db_path@,
    {
        let conn = match open_db(db_path.as_str()) {
            Some(c) => c,
            None => {
                return Err(StoreError::OpenDb);
            },
        };
        if !exec_sql(&conn, schema::PRAGMAS) {
            return Err(StoreError::Schema);
        }
        if !exec_sql(&conn, schema::ACTION_EVENTS_DDL) {
            return Err(StoreError::Schema);
        }
        if !exec_sql(&conn, schema::SYSTEM_SAMPLES_DDL) {
            return Err(StoreError::Schema);
        }
        if !exec_sql(&conn, schema::TOOL_EMBEDDINGS_CACHE_DDL) {
            return Err(StoreError::Schema);
        }
        let (tx, rx) = channel_pair(buffer_capacity);
        let store = TelemetrySqliteStore { sender: Some(tx), db_path };
        Ok((store, WriterHandle { conn, rx }))
    }

    /// Non-blocking submit of an action event: the caller is never blocked
    /// and never sees an error. A full queue drops the record and says so,
    /// so the embedding program can raise its overload warning; after
    /// shutdown the record is discarded silently.
    pub fn submit_action(&self, record: ActionRecord) -> (r: SubmitOutcome)
        ensures
            self.is_shut() ==> r is Closed,
            r is Accepted ==> !self.is_shut(),
    {
        match &self.sender {
            Some(sender) => try_send_op(sender, WriteOp::ActionEvent(Box::new(record))),
            None => SubmitOutcome::Closed,
        }
    }

    /// Non-blocking submit of a system sample, with the same drop policy as
    /// `submit_action`.
    pub fn submit_system_sample(&self, sample: SystemSample) -> (r: SubmitOutcome)
        ensures
            self.is_shut() ==> r is Closed,
            r is Accepted ==> !self.is_shut(),
    {
        match &self.sender {
            Some(sender) => try_send_op(sender, WriteOp::SystemSample(sample)),
            None => SubmitOutcome::Closed,
        }
    }

    /// Path of the underlying database file.
    pub fn db_path(&self) -> (r: &str)
        ensures
            r@ == self.spec_db_path(),
    {
        self.db_path.as_str()
    }

    /// Graceful shutdown of the submission side: enqueue the sentinel and
    /// close the channel, so the writer flushes its final batch and stops.
    /// Safe to call any number of times; every call after the first is a
    /// no-op. The embedding program waits for the writer's `run` to return
    /// after this.
    pub fn shutdown(&mut self)
        ensures
            final(self).is_shut(),
            final(self).spec_db_path() == old(self).spec_db_path(),
    {
        match self.sender.take() {
            Some(sender) => {
                // The sender is dropped right after, so the writer sees a
                // disconnect even if the sentinel could not be enqueued.
                try_send_op(&sender, WriteOp::Shutdown);
            },
            None => {},
        }
    }
}

/// Commit one batch in a single transaction, in arrival order. A row whose
/// insert fails is skipped; its siblings and the commit still go through. A
/// failed BEGIN abandons the whole batch.
fn flush_batch(conn: &rusqlite::Connection, batch: &Vec<WriteOp>) {
    if batch.len() == 0 {
        return;
    }
    if !exec_sql(conn, "BEGIN") {
        return;
    }
    let mut i: usize = 0;
    while i < batch.len()
        invariant
            i <= batch.len(),
        decreases batch.len() - i,
    {
        match &batch[i] {
            WriteOp::ActionEvent(rec) => {
                insert_action_row(conn, &**rec);
            },
            WriteOp::SystemSample(sample) => {
                insert_sample_row(conn, sample);
            },
            WriteOp::Shutdown => {},
        }
        i = i + 1;
    }
    exec_sql(conn, "COMMIT");
}

} // verus!
