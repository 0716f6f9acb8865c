//! The channels of the `futures` crate that the engine hands values to.
//!
//! Verus sees nothing inside a channel. What a call returns depends on the
//! other end, so no contract here promises an outcome.

use futures::channel::mpsc;
use futures::channel::oneshot;
use vstd::prelude::*;

verus! {

/// `mpsc::Sender`, the sending end of a bounded queue.
#[verifier::external_type_specification]
#[verifier::external_body]
#[verifier::reject_recursive_types(T)]
pub struct ExBoundedSender<T>(mpsc::Sender<T>);

/// `mpsc::Receiver`, the receiving end of a bounded queue.
#[verifier::external_type_specification]
#[verifier::external_body]
#[verifier::reject_recursive_types(T)]
pub struct ExBoundedReceiver<T>(mpsc::Receiver<T>);

/// `oneshot::Sender`, the sending end of a one-shot channel.
#[verifier::external_type_specification]
#[verifier::external_body]
#[verifier::reject_recursive_types(T)]
pub struct ExStopSender<T>(oneshot::Sender<T>);

/// `oneshot::Receiver`, the receiving end of a one-shot channel.
#[verifier::external_type_specification]
#[verifier::external_body]
#[verifier::reject_recursive_types(T)]
pub struct ExStopReceiver<T>(oneshot::Receiver<T>);

/// `oneshot::Canceled`, what a one-shot receiver yields once its sender is
/// gone. It occurs in the receiver's impl of `Future`.
#[verifier::external_type_specification]
#[verifier::external_body]
pub struct ExCanceled(oneshot::Canceled);

/// How one attempt to hand a value to a bounded queue ended.
#[derive(Clone, Copy, Debug, PartialEq, Eq, Structural)]
pub enum Delivery {
    /// The queue took the value.
    Delivered,
    /// The receiving end is gone.
    Disconnected,
    /// The queue had no room. The value is lost, the queue lives on.
    Full,
}

impl Delivery {
    /// Whether the outcome shows that the peer behind the queue is gone for
    /// good, so that its record has to leave the registry.
    pub fn is_fatal(&self) -> (fatal: bool)
        ensures
            fatal == (*self == Delivery::Disconnected),
    {
        match self {
            Delivery::Disconnected => true,
            _ => false,
        }
    }
}

/// `mpsc::Sender::try_send`, which never waits. The three outcomes are the
/// `Ok` of the call and the two kinds of its error, one for one. Which of them
/// comes back is decided by the state of the channel, so nothing is promised.
#[verifier::external_body]
pub(crate) fn try_deliver<T>(queue: &mut mpsc::Sender<T>, item: T) -> (outcome: Delivery) {
    match queue.try_send(item) {
        Ok(()) => Delivery::Delivered,
        Err(e) => if e.is_disconnected() {
            Delivery::Disconnected
        } else {
            Delivery::Full
        },
    }
}

/// `mpsc::channel`: the two ends of a new bounded queue with room for
/// `buffer` values beyond the one slot that each sender owns. The call panics
/// on a buffer of a quarter of the address space or more.
#[verifier::external_body]
pub(crate) fn bounded_queue<T>(buffer: usize) -> (ends: (mpsc::Sender<T>, mpsc::Receiver<T>))
    requires
        buffer < usize::MAX / 4,
{
    mpsc::channel(buffer)
}

/// `oneshot::channel`: the two ends of a new one-shot channel. Dropping the
/// sender completes the receiver, which is how a receive loop learns that
/// its peer has left the registry.
#[verifier::external_body]
pub(crate) fn stop_signal() -> (ends: (oneshot::Sender<()>, oneshot::Receiver<()>)) {
    oneshot::channel()
}

} // verus!
