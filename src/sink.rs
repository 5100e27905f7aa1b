use vstd::prelude::*;

use crate::packet::SubscribeResponse;

verus! {

#[verifier::external_type_specification]
#[verifier::external_body]
#[verifier::reject_recursive_types(T)]
pub struct ExSender<T>(tokio::sync::mpsc::Sender<T>);

/// The outbound half of a subscriber's bounded stream.
pub type Sink = tokio::sync::mpsc::Sender<SubscribeResponse>;

/// The three ways a non-blocking send can end.
#[derive(Clone, Copy, Debug, PartialEq, Eq, Structural)]
pub enum SendOutcome {
    Sent,
    /// The queue is at its bound; the message was dropped.
    Full,
    /// The receiving side is gone; the message was dropped.
    Closed,
}

/// Relies on tokio's `Sender::try_send`: it never waits, and either queues the message
/// or hands it back because the queue is full or the receiver was dropped. Which of the
/// three happens depends on the receiving task, so nothing is promised about it.
#[verifier::external_body]
pub(crate) fn try_send(sink: &Sink, msg: SubscribeResponse) -> (r: SendOutcome) {
    match sink.try_send(msg) {
        Ok(()) => SendOutcome::Sent,
        Err(tokio::sync::mpsc::error::TrySendError::Full(_)) => SendOutcome::Full,
        Err(tokio::sync::mpsc::error::TrySendError::Closed(_)) => SendOutcome::Closed,
    }
}

/// Relies on tokio's `Sender::capacity`: the number of free slots in the queue at the
/// moment of the call, which the receiving task may change at any time.
#[verifier::external_body]
pub(crate) fn free_slots(sink: &Sink) -> (r: usize) {
    sink.capacity()
}

/// Relies on tokio's `Sender::clone`: a sender is a handle on an `Arc` of the shared
/// channel, and the copy points at the same channel, so the two are the same handle.
#[verifier::external_body]
pub(crate) fn share(sink: &Sink) -> (r: Sink)
    ensures
        r == *sink,
{
    sink.clone()
}

} // verus!
