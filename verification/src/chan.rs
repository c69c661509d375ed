//! Trusted surface over the bounded multi-producer/single-consumer channel
//! that decouples event producers from the single writer.
//!
//! The channel's contents are shared hidden state between the sender and the
//! receiver halves, so nothing exact can be promised about what a receive
//! returns; the verified writer loop therefore handles every outcome.

use vstd::prelude::*;
use crate::store::{SubmitOutcome, WriteOp};
use std::sync::mpsc::{Receiver, SyncSender};

verus! {

#[verifier::external_type_specification]
#[verifier::external_body]
#[verifier::reject_recursive_types(T)]
pub struct ExSyncSender<T>(std::sync::mpsc::SyncSender<T>);

#[verifier::external_type_specification]
#[verifier::external_body]
#[verifier::reject_recursive_types(T)]
pub struct ExReceiver<T>(std::sync::mpsc::Receiver<T>);

/// What one non-blocking or time-bounded receive attempt yielded.
pub enum RecvOutcome {
    /// An operation was dequeued.
    Item(WriteOp),
    /// Nothing was available before the attempt gave up.
    Empty,
    /// Every sender is gone and the queue is drained.
    Disconnected,
}

/// Relies on std::sync::mpsc::sync_channel: creates a bounded queue of the
/// given capacity, returning its send and receive halves.
#[verifier::external_body]
pub fn channel_pair(capacity: usize) -> (SyncSender<WriteOp>, Receiver<WriteOp>) {
    std::sync::mpsc::sync_channel(capacity)
}

/// Relies on SyncSender::try_send: enqueues without ever blocking. The
/// attempt reports `Dropped` when the queue is at capacity (the rejected
/// operation is discarded, as the drop policy asks) and `Closed` when the
/// receiver is gone.
#[verifier::external_body]
pub fn try_send_op(tx: &SyncSender<WriteOp>, op: WriteOp) -> (r: SubmitOutcome) {
    match tx.try_send(op) {
        Ok(()) => SubmitOutcome::Accepted,
        Err(std::sync::mpsc::TrySendError::Full(_)) => SubmitOutcome::Dropped,
        Err(std::sync::mpsc::TrySendError::Disconnected(_)) => SubmitOutcome::Closed,
    }
}

/// Relies on Receiver::recv: blocks until an item arrives (yielded as
/// `Item`), or reports `Disconnected` once every sender is gone and the
/// queue is drained. A blocking receive never reports `Empty`.
#[verifier::external_body]
pub fn recv_op(rx: &Receiver<WriteOp>) -> (r: RecvOutcome)
    ensures
        !(r is Empty),
{
    match rx.recv() {
        Ok(op) => RecvOutcome::Item(op),
        Err(_) => RecvOutcome::Disconnected,
    }
}

/// Relies on Receiver::try_recv: never blocks.
#[verifier::external_body]
pub fn try_recv_op(rx: &Receiver<WriteOp>) -> (r: RecvOutcome) {
    match rx.try_recv() {
        Ok(op) => RecvOutcome::Item(op),
        Err(std::sync::mpsc::TryRecvError::Empty) => RecvOutcome::Empty,
        Err(std::sync::mpsc::TryRecvError::Disconnected) => RecvOutcome::Disconnected,
    }
}

/// Relies on Receiver::recv_timeout: waits at most the given number of
/// milliseconds for an item.
#[verifier::external_body]
pub fn recv_timeout_op(rx: &Receiver<WriteOp>, timeout_ms: u64) -> (r: RecvOutcome) {
    match rx.recv_timeout(std::time::Duration::from_millis(timeout_ms)) {
        Ok(op) => RecvOutcome::Item(op),
        Err(std::sync::mpsc::RecvTimeoutError::Timeout) => RecvOutcome::Empty,
        Err(std::sync::mpsc::RecvTimeoutError::Disconnected) => RecvOutcome::Disconnected,
    }
}

} // verus!
