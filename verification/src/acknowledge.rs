//! Acknowledged communication between a [`Speaker`] and a [`Listener`].
//!
//! [`channel()`] and [`custom_channel()`] create a channel like a standard library channel, with
//! one producer (the [`Speaker`]) and one consumer (the [`Listener`]), where the listener answers
//! every payload it receives with an acknowledgement, computed from the payload by the channel's
//! acknowledgement function, so that the speaker can learn that its messages were received.
//! Both sides are built on a [`two_way::channel()`].
use crate::debug_text;
use crate::pipe::{
    delivery_reported, disconnection_reported, emptiness_reported, refusal_reported,
};
use crate::two_way::{self, Communicator};
use vstd::prelude::*;

verus! {

/// Returned by [`Speaker::send()`] when the [`Listener`] has been dropped; it hands the unsent
/// data back.
#[derive(Clone, Copy, PartialEq, Eq)]
pub struct SendError<T>(pub T);

impl<T> core::fmt::Debug for SendError<T> {
    /// Writes `SendError { .. }`, leaving the unsent data out.
    fn fmt(&self, f: &mut core::fmt::Formatter<'_>) -> Result<(), core::fmt::Error> {
        let mut builder = debug_text::debug_struct(f, "SendError");
        debug_text::finish_non_exhaustive(&mut builder)
    }
}

impl<T> SendError<T> {
    /// The text that describes this error.
    pub fn description(&self) -> (text: &'static str)
        ensures
            text@ == "data was sent after listener was dropped"@,
    {
        "data was sent after listener was dropped"
    }
}

/// Producer of payloads in an acknowledge [`channel()`]; it reads the acknowledgements sent
/// back by the [`Listener`].
#[must_use]
#[verifier::reject_recursive_types(T)]
#[verifier::reject_recursive_types(U)]
pub struct Speaker<T, U> {
    /// the speaker's side of the underlying two-way channel
    communicator: Communicator<T, U>,
}

/// Why the [`Speaker`] could not read an acknowledgement: the [`Listener`] has been dropped.
#[derive(Clone, Copy, PartialEq, Eq, Debug)]
pub enum ReadAcknowledgementError {
    ListenerDropped,
}

impl ReadAcknowledgementError {
    /// The text that describes this error.
    pub fn description(&self) -> (text: &'static str)
        ensures
            text@ == "listener was dropped before another acknowledgement was written"@,
    {
        "listener was dropped before another acknowledgement was written"
    }
}

/// What a non-blocking read of acknowledgements reports for each outcome of the read from the
/// underlying channel: an acknowledgement, nothing yet, or a dropped listener.
pub fn acknowledgement_report<U>(outcome: Result<U, two_way::TryRecvError>) -> (res: Result<
    Option<U>,
    ReadAcknowledgementError,
>)
    ensures
        res == match outcome {
            Ok(acknowledgement) => Ok(Some(acknowledgement)),
            Err(two_way::TryRecvError::Empty) => Ok(None),
            Err(two_way::TryRecvError::Disconnected) => Err(
                ReadAcknowledgementError::ListenerDropped,
            ),
        },
{
    match outcome {
        Ok(acknowledgement) => Ok(Some(acknowledgement)),
        Err(two_way::TryRecvError::Empty) => Ok(None),
        Err(two_way::TryRecvError::Disconnected) => Err(ReadAcknowledgementError::ListenerDropped),
    }
}

/// What a blocking read of an acknowledgement reports for each outcome of the read from the
/// underlying channel: the acknowledgement, or a dropped listener.
pub fn blocking_acknowledgement_report<U>(outcome: Result<U, two_way::RecvError>) -> (res: Result<
    U,
    ReadAcknowledgementError,
>)
    ensures
        res == match outcome {
            Ok(acknowledgement) => Ok(acknowledgement),
            Err(_) => Err(ReadAcknowledgementError::ListenerDropped),
        },
{
    match outcome {
        Ok(acknowledgement) => Ok(acknowledgement),
        Err(_) => Err(ReadAcknowledgementError::ListenerDropped),
    }
}

/// One step of reading every waiting acknowledgement: a read acknowledgement is appended and the
/// reading goes on (`None`); when none is waiting the reading stops with the listener still
/// there (`Some(true)`); when the listener is gone it stops with `Some(false)`.
pub fn absorb_acknowledgement<U>(
    acknowledgements: &mut Vec<U>,
    report: Result<Option<U>, ReadAcknowledgementError>,
) -> (listening: Option<bool>)
    ensures
        match report {
            Ok(Some(acknowledgement)) => {
                &&& listening is None
                &&& final(acknowledgements)@ == old(acknowledgements)@.push(acknowledgement)
            },
            Ok(None) => {
                &&& listening == Some(true)
                &&& final(acknowledgements)@ == old(acknowledgements)@
            },
            Err(_) => {
                &&& listening == Some(false)
                &&& final(acknowledgements)@ == old(acknowledgements)@
            },
        },
{
    match report {
        Ok(Some(acknowledgement)) => {
            acknowledgements.push(acknowledgement);
            None
        },
        Ok(None) => Some(true),
        Err(_) => Some(false),
    }
}

impl<T, U> Speaker<T, U> {
    /// The receiving end on which this speaker reads the listener's acknowledgements.
    pub closed spec fn receiving_end(&self) -> std::sync::mpsc::Receiver<U> {
        self.communicator.receiving_end()
    }

    /// The sending end on which this speaker sends payloads to the listener.
    pub closed spec fn sending_end(&self) -> std::sync::mpsc::Sender<T> {
        self.communicator.sending_end()
    }

    /// Sends `data` to the listener. A send fails only when the [`Listener`] has been dropped;
    /// the error then holds `data` itself.
    pub fn send(&self, data: T) -> (res: Result<(), SendError<T>>)
        ensures
            res matches Err(error) ==> error.0 == data,
            res is Err ==> refusal_reported(self.sending_end()),
            res is Ok ==> delivery_reported(self.sending_end(), data),
    {
        match self.communicator.send(data) {
            Ok(()) => Ok(()),
            Err(two_way::SendError(back)) => Err(SendError(back)),
        }
    }

    /// Reads an acknowledgement without blocking: `Ok(Some(_))` when the listener has sent one
    /// that was not read yet, `Ok(None)` when there is none but the listener is still there, and
    /// an error when the listener has been dropped.
    pub fn read_acknowledgement(&self) -> (res: Result<Option<U>, ReadAcknowledgementError>)
        ensures
            res matches Ok(None) ==> emptiness_reported(self.receiving_end()),
            res is Err ==> disconnection_reported(self.receiving_end()),
    {
        acknowledgement_report(self.communicator.try_recv())
    }

    /// Blocks until the listener sends another acknowledgement, or fails once the listener has
    /// been dropped and every acknowledgement has been read.
    pub fn blocking_read_acknowledgement(&self) -> (res: Result<U, ReadAcknowledgementError>)
        ensures
            res is Err ==> disconnection_reported(self.receiving_end()),
    {
        blocking_acknowledgement_report(self.communicator.recv())
    }

    /// Reads, without blocking, every acknowledgement that is waiting, in order. They come in
    /// `Ok` if the listener is still there when the waiting ones run out, in `Err` if it has
    /// been dropped; each read is settled by [`absorb_acknowledgement()`].
    pub fn read_acknowledgements(&self) -> (res: Result<Vec<U>, Vec<U>>)
        ensures
            res is Ok ==> emptiness_reported(self.receiving_end()),
            res is Err ==> disconnection_reported(self.receiving_end()),
    {
        let mut acknowledgements: Vec<U> = Vec::new();
        loop
            invariant
                acknowledgements@.len() <= usize::MAX,
            decreases usize::MAX - acknowledgements@.len(),
        {
            match absorb_acknowledgement(&mut acknowledgements, self.read_acknowledgement()) {
                None => {
                    assert(acknowledgements@.len() == acknowledgements.len());
                },
                Some(true) => {
                    return Ok(acknowledgements);
                },
                Some(false) => {
                    return Err(acknowledgements);
                },
            }
        }
    }

    /// Gives up speaking and keeps reading acknowledgements, blocking on each, until the
    /// listener is dropped. A speaker and a listener that both drain do not wait on each other
    /// forever.
    pub fn drain(self) -> (drained: two_way::Drain<U>)
        ensures
            drained.receiving_end() == self.receiving_end(),
    {
        self.communicator.drain()
    }
}

/// What a blocking receive reports for a received payload once its acknowledgement was sent
/// (`Ok(())`) or failed to send because the speaker is gone (the error holds the
/// acknowledgement): the payload, or the payload with the failed acknowledgement.
pub fn receipt_report<T, U>(payload: T, sent: Result<(), two_way::SendError<U>>) -> (res: Result<
    T,
    RecvError<T, U>,
>)
    ensures
        res == match sent {
            Ok(_) => Ok(payload),
            Err(error) => Err(
                RecvError::AcknowledgementError { payload, failed_acknowledgement: error.0 },
            ),
        },
{
    match sent {
        Ok(()) => Ok(payload),
        Err(error) => Err(
            RecvError::AcknowledgementError { payload, failed_acknowledgement: error.0 },
        ),
    }
}

/// What a non-blocking receive reports for a received payload once its acknowledgement was
/// sent (`Ok(())`) or failed to send because the speaker is gone (the error holds the
/// acknowledgement): the payload, or the payload with the failed acknowledgement.
pub fn tried_receipt_report<T, U>(payload: T, sent: Result<(), two_way::SendError<U>>) -> (res:
    Result<T, TryRecvError<T, U>>)
    ensures
        res == match sent {
            Ok(_) => Ok(payload),
            Err(error) => Err(
                TryRecvError::AcknowledgementError { payload, failed_acknowledgement: error.0 },
            ),
        },
{
    match sent {
        Ok(()) => Ok(payload),
        Err(error) => Err(
            TryRecvError::AcknowledgementError { payload, failed_acknowledgement: error.0 },
        ),
    }
}

/// What a non-blocking receive reports when no payload was waiting: nothing is available while
/// the speaker is there, and the speaker is gone otherwise.
pub fn no_payload_report<T, U>(outcome: two_way::TryRecvError) -> (res: TryRecvError<T, U>)
    ensures
        res == match outcome {
            two_way::TryRecvError::Empty => TryRecvError::<T, U>::NoPayloadsAvailable,
            two_way::TryRecvError::Disconnected => TryRecvError::<T, U>::SpeakerDropped,
        },
{
    match outcome {
        two_way::TryRecvError::Empty => TryRecvError::NoPayloadsAvailable,
        two_way::TryRecvError::Disconnected => TryRecvError::SpeakerDropped,
    }
}

/// What a drained listener yields for each outcome of a blocking receive: the payload with
/// `Ok(())` once acknowledged, the payload with its failed acknowledgement, or the end.
pub fn drained_item<T, U>(received: Result<T, RecvError<T, U>>) -> (item: Option<(T, Result<(), U>)>)
    ensures
        item == match received {
            Ok(payload) => Some((payload, Ok(()))),
            Err(RecvError::AcknowledgementError { payload, failed_acknowledgement }) => Some(
                (payload, Err(failed_acknowledgement)),
            ),
            Err(RecvError::SpeakerDropped) => None,
        },
{
    match received {
        Ok(payload) => Some((payload, Ok(()))),
        Err(RecvError::AcknowledgementError { payload, failed_acknowledgement }) => Some(
            (payload, Err(failed_acknowledgement)),
        ),
        Err(RecvError::SpeakerDropped) => None,
    }
}

/// Consumer of payloads in an acknowledge [`channel()`]; it answers each payload it receives with
/// the acknowledgement that its function computes from it.
#[must_use]
#[verifier::reject_recursive_types(T)]
#[verifier::reject_recursive_types(U)]
pub struct Listener<T, U, F: Fn(&T) -> U> {
    /// the listener's side of the underlying two-way channel
    communicator: Communicator<U, T>,
    /// computes the acknowledgement of a payload
    function: F,
}

/// Why [`Listener::recv()`] returned no payload.
#[derive(PartialEq, Eq)]
pub enum RecvError<T, U> {
    /// the speaker was dropped between sending the payload and the acknowledgement of it
    AcknowledgementError {
        /// the payload that could not be acknowledged
        payload: T,
        /// the acknowledgement that could not be sent
        failed_acknowledgement: U,
    },
    /// the speaker was dropped and every payload it sent has been read
    SpeakerDropped,
}

impl<T, U> core::fmt::Debug for RecvError<T, U> {
    /// Writes the name of the variant, leaving the payload and acknowledgement out.
    fn fmt(&self, f: &mut core::fmt::Formatter<'_>) -> Result<(), core::fmt::Error> {
        match self {
            RecvError::AcknowledgementError { .. } => debug_text::write_text(
                f,
                "RecvError::AcknowledgementError",
            ),
            RecvError::SpeakerDropped => debug_text::write_text(f, "RecvError::SpeakerDropped"),
        }
    }
}

impl<T, U> RecvError<T, U> {
    /// The text that describes this error.
    pub fn description(&self) -> (text: &'static str)
        ensures
            self is AcknowledgementError ==> text@
                == "data was received, but speaker dropped before acknowledgement could be sent"@,
            self is SpeakerDropped ==> text@
                == "speaker dropped before sending anymore payloads"@,
    {
        match self {
            RecvError::AcknowledgementError { .. } => {
                "data was received, but speaker dropped before acknowledgement could be sent"
            },
            RecvError::SpeakerDropped => "speaker dropped before sending anymore payloads",
        }
    }
}

/// Why [`Listener::try_recv()`] returned no payload.
#[derive(PartialEq, Eq)]
pub enum TryRecvError<T, U> {
    /// the speaker was dropped between sending the payload and the acknowledgement of it
    AcknowledgementError {
        /// the payload that could not be acknowledged
        payload: T,
        /// the acknowledgement that could not be sent
        failed_acknowledgement: U,
    },
    /// the speaker was dropped and every payload it sent has been read
    SpeakerDropped,
    /// the speaker is still there but has sent no payload that was not read yet
    NoPayloadsAvailable,
}

impl<T, U> core::fmt::Debug for TryRecvError<T, U> {
    /// Writes the name of the variant, leaving the payload and acknowledgement out.
    fn fmt(&self, f: &mut core::fmt::Formatter<'_>) -> Result<(), core::fmt::Error> {
        match self {
            TryRecvError::AcknowledgementError { .. } => debug_text::write_text(
                f,
                "TryRecvError::AcknowledgementError",
            ),
            TryRecvError::SpeakerDropped => debug_text::write_text(
                f,
                "TryRecvError::SpeakerDropped",
            ),
            TryRecvError::NoPayloadsAvailable => debug_text::write_text(
                f,
                "TryRecvError::NoPayloadsAvailable",
            ),
        }
    }
}

impl<T, U> TryRecvError<T, U> {
    /// The text that describes this error.
    pub fn description(&self) -> (text: &'static str)
        ensures
            self is AcknowledgementError ==> text@
                == "data was received, but speaker dropped before acknowledgement could be sent"@,
            self is SpeakerDropped ==> text@
                == "speaker dropped before sending anymore payloads"@,
            self is NoPayloadsAvailable ==> text@
                == "no unread payloads from still connected speaker"@,
    {
        match self {
            TryRecvError::AcknowledgementError { .. } => {
                "data was received, but speaker dropped before acknowledgement could be sent"
            },
            TryRecvError::SpeakerDropped => "speaker dropped before sending anymore payloads",
            TryRecvError::NoPayloadsAvailable => "no unread payloads from still connected speaker",
        }
    }
}

impl<T, U, F: Fn(&T) -> U> Listener<T, U, F> {
    /// The acknowledgement function can be called on every payload.
    #[verifier::type_invariant]
    spec fn acknowledges_every_payload(self) -> bool {
        forall|payload: &T| self.function.requires((payload,))
    }

    /// The function that computes acknowledgements.
    pub closed spec fn acknowledger(&self) -> F {
        self.function
    }

    /// The receiving end on which this listener reads the speaker's payloads.
    pub closed spec fn receiving_end(&self) -> std::sync::mpsc::Receiver<T> {
        self.communicator.receiving_end()
    }

    /// The sending end on which this listener sends acknowledgements to the speaker.
    pub closed spec fn sending_end(&self) -> std::sync::mpsc::Sender<U> {
        self.communicator.sending_end()
    }

    /// Sends the acknowledgement of `payload` to the speaker. That fails only when the speaker
    /// has been dropped; the error then holds the acknowledgement, computed from `payload`.
    fn acknowledge(&self, payload: &T) -> (res: Result<(), two_way::SendError<U>>)
        ensures
            exists|acknowledgement: U|
                #[trigger] self.acknowledger().ensures((payload,), acknowledgement) && (
                res matches Err(error) ==> error.0 == acknowledgement) && (res is Ok
                    ==> delivery_reported(self.sending_end(), acknowledgement)),
            res is Err ==> refusal_reported(self.sending_end()),
    {
        proof {
            use_type_invariant(self);
        }
        let acknowledgement = (self.function)(payload);
        let ghost computed = acknowledgement;
        let res = self.communicator.send(acknowledgement);
        assert(self.acknowledger().ensures((payload,), computed));
        res
    }

    /// Blocks until the speaker sends a payload, acknowledges it and returns it. When the
    /// acknowledgement cannot be sent because the speaker is gone, the payload comes back inside
    /// the error, with the acknowledgement the function computed from it (see
    /// [`receipt_report()`]). When the speaker is gone and every payload has been read, the error
    /// is [`RecvError::SpeakerDropped`].
    pub fn recv(&self) -> (res: Result<T, RecvError<T, U>>)
        ensures
            res matches Ok(payload) ==> exists|acknowledgement: U|
                #[trigger] self.acknowledger().ensures((&payload,), acknowledgement)
                    && delivery_reported(self.sending_end(), acknowledgement),
            res matches Err(RecvError::AcknowledgementError { payload, failed_acknowledgement })
                ==> self.acknowledger().ensures((&payload,), failed_acknowledgement),
            res matches Err(RecvError::AcknowledgementError { .. }) ==> refusal_reported(
                self.sending_end(),
            ),
            res matches Err(RecvError::SpeakerDropped) ==> disconnection_reported(
                self.receiving_end(),
            ),
    {
        match self.communicator.recv() {
            Ok(payload) => {
                let ghost received = payload;
                let sent = self.acknowledge(&payload);
                let res = receipt_report(payload, sent);
                proof {
                    let acknowledgement = choose|acknowledgement: U|
                        #[trigger] self.acknowledger().ensures((&received,), acknowledgement);
                    if res is Ok {
                        assert(res->Ok_0 == received);
                        assert(self.acknowledger().ensures((&res->Ok_0,), acknowledgement));
                    }
                }
                res
            },
            Err(_) => Err(RecvError::SpeakerDropped),
        }
    }

    /// Reads a waiting payload without blocking, acknowledges it and returns it (see
    /// [`tried_receipt_report()`]); when nothing is read, the error says why (see
    /// [`no_payload_report()`]).
    pub fn try_recv(&self) -> (res: Result<T, TryRecvError<T, U>>)
        ensures
            res matches Ok(payload) ==> exists|acknowledgement: U|
                #[trigger] self.acknowledger().ensures((&payload,), acknowledgement)
                    && delivery_reported(self.sending_end(), acknowledgement),
            res matches Err(TryRecvError::AcknowledgementError { payload, failed_acknowledgement })
                ==> self.acknowledger().ensures((&payload,), failed_acknowledgement),
            res matches Err(TryRecvError::AcknowledgementError { .. }) ==> refusal_reported(
                self.sending_end(),
            ),
            res matches Err(TryRecvError::SpeakerDropped) ==> disconnection_reported(
                self.receiving_end(),
            ),
            res matches Err(TryRecvError::NoPayloadsAvailable) ==> emptiness_reported(
                self.receiving_end(),
            ),
    {
        match self.communicator.try_recv() {
            Ok(payload) => {
                let ghost received = payload;
                let sent = self.acknowledge(&payload);
                let res = tried_receipt_report(payload, sent);
                proof {
                    let acknowledgement = choose|acknowledgement: U|
                        #[trigger] self.acknowledger().ensures((&received,), acknowledgement);
                    if res is Ok {
                        assert(res->Ok_0 == received);
                        assert(self.acknowledger().ensures((&res->Ok_0,), acknowledgement));
                    }
                }
                res
            },
            Err(error) => Err(no_payload_report(error)),
        }
    }

    /// Keeps receiving payloads, blocking on each, until the speaker is dropped; see
    /// [`ListenerDrain::next()`].
    pub fn drain(self) -> (drained: ListenerDrain<T, U, F>)
        ensures
            drained.acknowledger() == self.acknowledger(),
            drained.receiving_end() == self.receiving_end(),
    {
        ListenerDrain { listener: self }
    }
}

/// A [`Listener`] that only receives until the speaker is gone.
#[must_use]
#[verifier::reject_recursive_types(T)]
#[verifier::reject_recursive_types(U)]
pub struct ListenerDrain<T, U, F: Fn(&T) -> U> {
    listener: Listener<T, U, F>,
}

impl<T, U, F: Fn(&T) -> U> ListenerDrain<T, U, F> {
    /// The function that computes acknowledgements.
    pub closed spec fn acknowledger(&self) -> F {
        self.listener.acknowledger()
    }

    /// The receiving end on which the payloads arrive.
    pub closed spec fn receiving_end(&self) -> std::sync::mpsc::Receiver<T> {
        self.listener.receiving_end()
    }

    /// Blocks until the next payload arrives and acknowledges it: `Some((payload, Ok(())))`
    /// when the acknowledgement was sent, `Some((payload, Err(acknowledgement)))` when the
    /// speaker was gone before it could be, and `None` once the speaker is gone and every
    /// payload has been read.
    pub fn next(&mut self) -> (item: Option<(T, Result<(), U>)>)
        ensures
            item matches Some((payload, Err(acknowledgement))) ==> old(self).acknowledger().ensures(
                (&payload,),
                acknowledgement,
            ),
            final(self).acknowledger() == old(self).acknowledger(),
            final(self).receiving_end() == old(self).receiving_end(),
            item is None ==> disconnection_reported(old(self).receiving_end()),
    {
        drained_item(self.listener.recv())
    }

    /// Receives and acknowledges every remaining payload, in order, until the speaker is gone;
    /// each item is settled by [`two_way::absorb_message()`].
    pub fn collect_vec(self) -> (items: Vec<(T, Result<(), U>)>)
        ensures
            forall|i: int|
                0 <= i < items@.len() ==> ((#[trigger] items@[i]).1 matches Err(acknowledgement)
                    ==> self.acknowledger().ensures((&items@[i].0,), acknowledgement)),
            disconnection_reported(self.receiving_end()),
    {
        let mut rest = self;
        let mut items: Vec<(T, Result<(), U>)> = Vec::new();
        loop
            invariant
                items@.len() <= usize::MAX,
                rest.acknowledger() == self.acknowledger(),
                rest.receiving_end() == self.receiving_end(),
                forall|i: int|
                    0 <= i < items@.len() ==> ((#[trigger] items@[i]).1 matches Err(acknowledgement)
                        ==> self.acknowledger().ensures((&items@[i].0,), acknowledgement)),
            ensures
                forall|i: int|
                    0 <= i < items@.len() ==> ((#[trigger] items@[i]).1 matches Err(acknowledgement)
                        ==> self.acknowledger().ensures((&items@[i].0,), acknowledgement)),
                disconnection_reported(self.receiving_end()),
            decreases usize::MAX - items@.len(),
        {
            let item = rest.next();
            if two_way::absorb_message(&mut items, item) {
                assert(items@.len() == items.len());
            } else {
                break;
            }
        }
        items
    }
}

/// Creates an acknowledge channel whose listener acknowledges each payload with what
/// `function` computes from it.
pub fn custom_channel<T, U, F: Fn(&T) -> U>(function: F) -> (channel: (
    Speaker<T, U>,
    Listener<T, U, F>,
))
    requires
        forall|payload: &T| function.requires((payload,)),
    ensures
        channel.1.acknowledger() == function,
{
    let (speaker_communicator, listener_communicator) = two_way::channel();
    let speaker = Speaker { communicator: speaker_communicator };
    let listener = Listener { communicator: listener_communicator, function };
    (speaker, listener)
}

/// Creates an acknowledge channel whose listener acknowledges every payload with `()`.
pub fn channel<T>() -> (Speaker<T, ()>, Listener<T, (), impl Fn(&T)>) {
    custom_channel(|_payload: &T| ())
}

} // verus!
