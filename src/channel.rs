//! The two queues between caller and worker, std's mpsc channels.
use vstd::prelude::*;

use std::sync::mpsc::{Receiver, Sender, TryRecvError};

verus! {

#[verifier::external_type_specification]
#[verifier::external_body]
#[verifier::reject_recursive_types(T)]
pub struct ExSender<T>(std::sync::mpsc::Sender<T>);

#[verifier::external_type_specification]
#[verifier::external_body]
#[verifier::reject_recursive_types(T)]
pub struct ExReceiver<T>(std::sync::mpsc::Receiver<T>);

/// What a look at a queue found.
pub enum Incoming<T> {
    /// The oldest value that was waiting, now taken off the queue.
    Item(T),
    /// Nothing is waiting, and the other end is still there.
    Empty,
    /// Nothing is waiting, and the other end is gone.
    Closed,
}

/// Relies on std::sync::mpsc::channel: a new queue, as its sending and its
/// receiving end.
#[verifier::external_body]
pub(crate) fn open_channel<T>() -> (Sender<T>, Receiver<T>) {
    std::sync::mpsc::channel()
}

/// Relies on Sender::send: it never blocks, and where the receiving end is
/// gone it fails and hands the value back unchanged inside its SendError.
#[verifier::external_body]
pub(crate) fn send_value<T>(tx: &Sender<T>, v: T) -> (r: Result<(), T>)
    ensures
        r matches Err(back) ==> back == v,
{
    match tx.send(v) {
        Ok(()) => Ok(()),
        Err(e) => Err(e.0),
    }
}

/// Relies on Receiver::try_recv: it never blocks, takes the oldest waiting
/// value, and tells an empty queue from one whose sending end is gone.
#[verifier::external_body]
pub(crate) fn try_take<T>(rx: &Receiver<T>) -> Incoming<T> {
    match rx.try_recv() {
        Ok(v) => Incoming::Item(v),
        Err(TryRecvError::Empty) => Incoming::Empty,
        Err(TryRecvError::Disconnected) => Incoming::Closed,
    }
}

} // verus!
