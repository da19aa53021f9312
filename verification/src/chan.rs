//! Trusted boundary to tokio's mpsc channels. The coordinator dispatches
//! with non-blocking sends on bounded per-subscriber channels; registrations
//! travel on an unbounded channel. Channel contents are concurrent state
//! (the receiving half drains them from another task), so the contracts
//! state only what holds of every outcome of a call.

use vstd::prelude::*;

verus! {

#[verifier::external_type_specification]
#[verifier::external_body]
#[verifier::reject_recursive_types(T)]
pub struct ExSender<T>(tokio::sync::mpsc::Sender<T>);

#[verifier::external_type_specification]
#[verifier::external_body]
#[verifier::reject_recursive_types(T)]
pub struct ExReceiver<T>(tokio::sync::mpsc::Receiver<T>);

#[verifier::external_type_specification]
#[verifier::external_body]
#[verifier::reject_recursive_types(T)]
pub struct ExUnboundedSender<T>(tokio::sync::mpsc::UnboundedSender<T>);

#[verifier::external_type_specification]
#[verifier::external_body]
#[verifier::reject_recursive_types(T)]
pub struct ExUnboundedReceiver<T>(tokio::sync::mpsc::UnboundedReceiver<T>);

/// The outcome of one non-blocking send attempt. `Full` and `Closed` hand
/// the undelivered message back.
pub enum SendOutcome<T> {
    Sent,
    Full(T),
    Closed(T),
}

/// Relies on tokio::sync::mpsc::channel: creates a bounded first-in
/// first-out channel with the given buffer capacity. The function panics on
/// a zero capacity and on one beyond the runtime's permit limit; the
/// precondition excludes both.
#[verifier::external_body]
pub(crate) fn bounded_channel<T>(capacity: usize) -> (tokio::sync::mpsc::Sender<T>, tokio::sync::mpsc::Receiver<T>)
    requires
        1 <= capacity <= usize::MAX >> 3,
{
    tokio::sync::mpsc::channel(capacity)
}

/// Relies on tokio::sync::mpsc::Sender::try_send: a non-blocking send that
/// either enqueues the message, or returns it back as `Full` when the
/// channel is at capacity, or as `Closed` when the receiving half is gone.
#[verifier::external_body]
pub(crate) fn try_send<T>(sender: &tokio::sync::mpsc::Sender<T>, message: T) -> (r: SendOutcome<T>)
    ensures
        (match r {
            SendOutcome::Sent => true,
            SendOutcome::Full(m) => m == message,
            SendOutcome::Closed(m) => m == message,
        }),
{
    match sender.try_send(message) {
        Ok(()) => SendOutcome::Sent,
        Err(tokio::sync::mpsc::error::TrySendError::Full(m)) => SendOutcome::Full(m),
        Err(tokio::sync::mpsc::error::TrySendError::Closed(m)) => SendOutcome::Closed(m),
    }
}

/// Relies on tokio::sync::mpsc::unbounded_channel: creates an unbounded
/// first-in first-out channel; sends on it never apply backpressure.
#[verifier::external_body]
pub(crate) fn unbounded_channel<T>() -> (tokio::sync::mpsc::UnboundedSender<T>, tokio::sync::mpsc::UnboundedReceiver<T>)
{
    tokio::sync::mpsc::unbounded_channel()
}

/// Relies on tokio::sync::mpsc::UnboundedSender::send: enqueues the message
/// without waiting; fails only when the receiving half is gone, handing the
/// message back.
#[verifier::external_body]
pub(crate) fn unbounded_send<T>(sender: &tokio::sync::mpsc::UnboundedSender<T>, message: T) -> (r: Result<(), T>)
    ensures
        (match r {
            Ok(u) => u == (),
            Err(m) => m == message,
        }),
{
    match sender.send(message) {
        Ok(()) => Ok(()),
        Err(tokio::sync::mpsc::error::SendError(m)) => Err(m),
    }
}

} // verus!
