//! The standard library channel that every channel of this crate is built on.
//!
//! What a receive returns depends on what other threads sent and dropped, so the items here
//! state only what holds of every outcome.
use crate::two_way::{RecvError, TryRecvError};
use std::sync::mpsc::{Receiver, Sender};
use vstd::prelude::*;

verus! {

/// The sending half of a standard library channel.
#[verifier::external_type_specification]
#[verifier::external_body]
#[verifier::reject_recursive_types(T)]
pub struct ExSender<T>(Sender<T>);

/// The receiving half of a standard library channel.
#[verifier::external_type_specification]
#[verifier::external_body]
#[verifier::reject_recursive_types(T)]
pub struct ExReceiver<T>(Receiver<T>);

/// A read on `receiver` has reported the channel disconnected: every sender is gone and every
/// message has been read. Once that holds it holds for good, since no sender can come back.
/// Verus cannot see a channel's state, so the definition says nothing by itself; it is closed,
/// so elsewhere it is known only where the contract of a read below states it, and a function
/// that promises it must have made such a read.
pub closed spec fn disconnection_reported<T>(receiver: Receiver<T>) -> bool {
    true
}

/// A non-blocking read on `receiver` has found no message waiting while a sender was still
/// connected. Closed, like [`disconnection_reported`]: only the contract of
/// [`try_recv`] states it.
pub closed spec fn emptiness_reported<T>(receiver: Receiver<T>) -> bool {
    true
}

/// A send on `sender` has handed `data` to the channel, to be read by the receiver. Closed,
/// like [`disconnection_reported`]: only the contract of [`send`] states it.
pub closed spec fn delivery_reported<T>(sender: Sender<T>, data: T) -> bool {
    true
}

/// A send on `sender` has been refused because the receiver is gone. Closed, like
/// [`disconnection_reported`]: only the contract of [`send`] states it.
pub closed spec fn refusal_reported<T>(sender: Sender<T>) -> bool {
    true
}

/// Calls `std::sync::mpsc::channel`: a fresh sender and the receiver it is connected to.
/// Nothing is claimed of the pair.
#[verifier::external_body]
pub(crate) fn open<T>() -> (Sender<T>, Receiver<T>) {
    std::sync::mpsc::channel()
}

/// Calls `Sender::send`. Claimed: a failed send hands back the very value it was given
/// (std documents that the error carries the data being sent), and a failure is a refusal
/// because the receiver is gone (std: a send fails only when the receiver was dropped), and a
/// success hands the value to the channel (std: the value will be received). Whether
/// it fails is not stated: that depends on whether the receiver was dropped.
#[verifier::external_body]
pub(crate) fn send<T>(sender: &Sender<T>, data: T) -> (res: Result<(), T>)
    ensures
        res matches Err(back) ==> back == data,
        res is Err ==> refusal_reported(*sender),
        res is Ok ==> delivery_reported(*sender, data),
{
    match sender.send(data) {
        Ok(()) => Ok(()),
        Err(error) => Err(error.0),
    }
}

/// Calls `Receiver::recv`, which blocks until a value arrives or every sender is gone.
/// Claimed: an error reports the channel disconnected (std: `recv` fails only when every sender
/// is gone and nothing is left to read; it waits otherwise). Which outcome comes is not stated:
/// it depends on the other threads.
#[verifier::external_body]
pub(crate) fn recv<T>(receiver: &Receiver<T>) -> (res: Result<T, RecvError>)
    ensures
        res is Err ==> disconnection_reported(*receiver),
{
    match receiver.recv() {
        Ok(value) => Ok(value),
        Err(_) => Err(RecvError),
    }
}

/// Calls `Receiver::try_recv`, which does not block. Claimed: `Empty` reports no message
/// waiting with a sender connected, and `Disconnected` reports the channel disconnected (std
/// documents the two errors so). Which outcome comes is not stated: it depends on the other
/// threads.
#[verifier::external_body]
pub(crate) fn try_recv<T>(receiver: &Receiver<T>) -> (res: Result<T, TryRecvError>)
    ensures
        res matches Err(TryRecvError::Empty) ==> emptiness_reported(*receiver),
        res matches Err(TryRecvError::Disconnected) ==> disconnection_reported(*receiver),
{
    match receiver.try_recv() {
        Ok(value) => Ok(value),
        Err(std::sync::mpsc::TryRecvError::Empty) => Err(TryRecvError::Empty),
        Err(std::sync::mpsc::TryRecvError::Disconnected) => Err(TryRecvError::Disconnected),
    }
}

/// Calls `Sender::clone`: another sender connected to the same receiver. Nothing is claimed.
#[verifier::external_body]
pub(crate) fn clone_sender<T>(sender: &Sender<T>) -> Sender<T> {
    sender.clone()
}

} // verus!
