use vstd::prelude::*;

verus! {

// Bounded single-producer/single-consumer queues connect the hot path to the
// execution side. The channels themselves live in an outside crate; this
// module declares their handle types and wraps the few calls the pipeline
// makes. What a queue holds at any instant depends on the peer endpoint, so
// the wrappers promise nothing about outcomes: callers state what holds for
// every possible result.

#[verifier::external_type_specification]
#[verifier::external_body]
#[verifier::reject_recursive_types(T)]
pub struct ExSender<T>(crossbeam_channel::Sender<T>);

#[verifier::external_type_specification]
#[verifier::external_body]
#[verifier::reject_recursive_types(T)]
pub struct ExReceiver<T>(crossbeam_channel::Receiver<T>);

/// Outcome of one non-blocking receive attempt.
pub enum TryRecvOutcome<T> {
    /// A message was waiting and is handed over.
    Received(T),
    /// The channel is currently empty but still open.
    Empty,
    /// The channel is empty and all senders are gone.
    Disconnected,
}

/// Relies on crossbeam_channel::bounded: creates a bounded channel of the
/// given capacity and returns its two endpoints.
#[verifier::external_body]
pub(crate) fn new_bounded<T>(cap: usize) -> (crossbeam_channel::Sender<T>, crossbeam_channel::Receiver<T>) {
    crossbeam_channel::bounded(cap)
}

/// Relies on crossbeam_channel::Sender::try_send: attempts to enqueue the
/// message without blocking and reports whether it was accepted; a full or
/// disconnected channel refuses it.
#[verifier::external_body]
pub(crate) fn try_send<T>(tx: &crossbeam_channel::Sender<T>, msg: T) -> bool {
    tx.try_send(msg).is_ok()
}

/// Relies on crossbeam_channel::Receiver::try_recv: attempts to dequeue one
/// message without blocking, telling an empty channel apart from a
/// disconnected one.
#[verifier::external_body]
pub(crate) fn try_recv<T>(rx: &crossbeam_channel::Receiver<T>) -> TryRecvOutcome<T> {
    match rx.try_recv() {
        Ok(v) => TryRecvOutcome::Received(v),
        Err(crossbeam_channel::TryRecvError::Empty) => TryRecvOutcome::Empty,
        Err(crossbeam_channel::TryRecvError::Disconnected) => TryRecvOutcome::Disconnected,
    }
}

} // verus!
