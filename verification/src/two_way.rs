//! Symmetric two-way communication between threads.
//!
//! [`channel()`] creates two [`Communicator`]s. Each one holds the sending end of one
//! standard library channel and the receiving end of another, so that whatever one
//! communicator sends, the other one receives, in both directions. The data types of the two
//! directions may differ.
use crate::debug_text;
use crate::pipe::{
    self, delivery_reported, disconnection_reported, emptiness_reported, refusal_reported,
};
use std::sync::mpsc::{Receiver, Sender};
use vstd::prelude::*;

verus! {

/// Returned by [`Communicator::send()`] when the other communicator has been dropped or
/// drained; it hands the unsent data back.
#[derive(Clone, Copy, PartialEq, Eq)]
pub struct SendError<T>(pub T);

impl<T> core::fmt::Debug for SendError<T> {
    /// Writes `SendError { .. }`, leaving the unsent data out.
    fn fmt(&self, f: &mut core::fmt::Formatter<'_>) -> Result<(), core::fmt::Error> {
        let mut builder = debug_text::debug_struct(f, "SendError");
        debug_text::finish_non_exhaustive(&mut builder)
    }
}

/// Returned by a blocking receive when the other communicator has been dropped (or drained)
/// and nothing is left to read.
#[derive(Clone, Copy, PartialEq, Eq, Debug)]
pub struct RecvError;

/// Returned by a non-blocking receive that finds nothing to read.
#[derive(Clone, Copy, PartialEq, Eq, Debug)]
pub enum TryRecvError {
    /// the other side is still there but has sent nothing new
    Empty,
    /// the other side has been dropped (or drained) and nothing is left to read
    Disconnected,
}

/// One half of a [`channel()`]: it sends `T`s to the other half and receives `U`s from it.
#[must_use]
#[verifier::reject_recursive_types(T)]
#[verifier::reject_recursive_types(U)]
pub struct Communicator<T, U> {
    /// where this communicator's messages go
    sender: Sender<T>,
    /// where the other communicator's messages arrive
    receiver: Receiver<U>,
}

/// What is left of a [`Communicator`] after [`Communicator::drain()`]: it can only receive.
/// Each call of [`Drain::next()`] blocks until a message arrives or the other side is gone.
#[must_use]
#[verifier::reject_recursive_types(U)]
pub struct Drain<U> {
    receiver: Receiver<U>,
}

impl<T, U> Communicator<T, U> {
    /// The receiving end on which this communicator reads what the other one sends.
    pub closed spec fn receiving_end(&self) -> Receiver<U> {
        self.receiver
    }

    /// The sending end on which this communicator sends to the other one.
    pub closed spec fn sending_end(&self) -> Sender<T> {
        self.sender
    }

    /// Sends `data` to the other communicator. A send fails only when the other communicator
    /// has been dropped or drained; the error then holds `data` itself.
    pub fn send(&self, data: T) -> (res: Result<(), SendError<T>>)
        ensures
            res matches Err(error) ==> error.0 == data,
            res is Err ==> refusal_reported(self.sending_end()),
            res is Ok ==> delivery_reported(self.sending_end(), data),
    {
        match pipe::send(&self.sender, data) {
            Ok(()) => Ok(()),
            Err(back) => Err(SendError(back)),
        }
    }

    /// Blocks until the next message from the other communicator arrives, or fails with
    /// [`RecvError`] once the other communicator is gone and everything it sent has been read.
    pub fn recv(&self) -> (res: Result<U, RecvError>)
        ensures
            res is Err ==> disconnection_reported(self.receiving_end()),
    {
        pipe::recv(&self.receiver)
    }

    /// Reads the next message from the other communicator if one is waiting; otherwise fails
    /// with [`TryRecvError::Empty`] while the other side is there and with
    /// [`TryRecvError::Disconnected`] once it is gone.
    pub fn try_recv(&self) -> (res: Result<U, TryRecvError>)
        ensures
            res matches Err(TryRecvError::Empty) ==> emptiness_reported(self.receiving_end()),
            res matches Err(TryRecvError::Disconnected) ==> disconnection_reported(
                self.receiving_end(),
            ),
    {
        pipe::try_recv(&self.receiver)
    }

    /// Gives up sending and keeps only the receiving end. From now on the other communicator's
    /// sends fail, so two communicators that both drain do not wait on each other forever.
    pub fn drain(self) -> (drained: Drain<U>)
        ensures
            drained.receiving_end() == self.receiving_end(),
    {
        let Communicator { sender: _given_up, receiver } = self;
        Drain { receiver }
    }
}

impl<U> Drain<U> {
    /// The receiving end that this drain reads.
    pub closed spec fn receiving_end(&self) -> Receiver<U> {
        self.receiver
    }

    /// Blocks until the next message arrives (`Some`), or returns `None` once the other side is
    /// gone and everything it sent has been read (see [`received_message()`]).
    pub fn next(&mut self) -> (message: Option<U>)
        ensures
            final(self).receiving_end() == old(self).receiving_end(),
            message is None ==> disconnection_reported(old(self).receiving_end()),
    {
        received_message(pipe::recv(&self.receiver))
    }

    /// Reads every remaining message, in order, until the other side is gone; each read is
    /// settled by [`absorb_message()`].
    pub fn collect_vec(self) -> (received: Vec<U>)
        ensures
            disconnection_reported(self.receiving_end()),
    {
        let mut rest = self;
        let mut received: Vec<U> = Vec::new();
        loop
            invariant
                received@.len() <= usize::MAX,
                rest.receiving_end() == self.receiving_end(),
            ensures
                disconnection_reported(self.receiving_end()),
            decreases usize::MAX - received@.len(),
        {
            if absorb_message(&mut received, rest.next()) {
                assert(received@.len() == received.len());
            } else {
                break;
            }
        }
        received
    }
}

/// What a drain yields for each outcome of a blocking read: the message, or the end once the
/// other side is gone.
pub fn received_message<U>(outcome: Result<U, RecvError>) -> (message: Option<U>)
    ensures
        message == match outcome {
            Ok(value) => Some(value),
            Err(_) => None,
        },
{
    match outcome {
        Ok(value) => Some(value),
        Err(_) => None,
    }
}

/// One step of collecting a drain: a message is appended and the collecting goes on (`true`);
/// the end stops it (`false`).
pub fn absorb_message<U>(received: &mut Vec<U>, message: Option<U>) -> (more: bool)
    ensures
        match message {
            Some(value) => more && final(received)@ == old(received)@.push(value),
            None => !more && final(received)@ == old(received)@,
        },
{
    match message {
        Some(value) => {
            received.push(value);
            true
        },
        None => false,
    }
}

/// Creates the two connected communicators of a new two-way channel: the first sends `T`s and
/// receives `U`s, the second sends `U`s and receives `T`s.
pub fn channel<T, U>() -> (Communicator<T, U>, Communicator<U, T>) {
    let (t_sender, t_receiver) = pipe::open();
    let (u_sender, u_receiver) = pipe::open();
    let first = Communicator { sender: t_sender, receiver: u_receiver };
    let second = Communicator { sender: u_sender, receiver: t_receiver };
    (first, second)
}

} // verus!
