//! Input enrichment and output handling at the two ends of a channel.
//!
//! [`channel()`] creates a multi-producer, single-consumer channel like a standard library
//! channel, with two differences:
//! 1. its sending side, a [`Producer`], enriches the data of each send with a
//!    [`SendSupplementer`] before sending it over the channel;
//! 2. its receiving side, a [`Consumer`], hands every message it receives to an
//!    [`EventAccepter`], which usually keeps it in some state (a `Vec`, a set, a
//!    [`HashEventSorter`], a [`PriorityQueue`], ...).
pub use crate::two_way::{RecvError, SendError, TryRecvError};
use crate::pipe::{
    self, delivery_reported, disconnection_reported, emptiness_reported, refusal_reported,
};
use std::marker::PhantomData;
use std::sync::mpsc::{Receiver, Sender};
use vstd::prelude::*;

mod collections;
mod priority;
mod sorter;
mod supplementers;

pub use self::collections::{
    ListAccepter, NullEventAccepter, lemma_btree_set_collects, lemma_hash_set_collects,
    lemma_list_accepter_keeps_arrival_order, lemma_null_event_accepter_unchanged,
    lemma_vec_deque_keeps_arrival_order, lemma_vec_keeps_arrival_order,
};
pub use self::priority::{
    PriorityQueue, PriorityQueueItem, in_priority_order, lemma_priority_queue_keeps_every_event,
    lemma_ranks_above_is_strict, prioritized, ranks_above,
};
pub use self::sorter::{
    BTreeEventSorter, HashEventSorter, add_to_stream, capped, events_with_id, ids_of,
    lemma_btree_event_sorter_counts, lemma_btree_event_sorter_logs_run,
    lemma_btree_event_sorter_sorts_by_id, lemma_hash_event_sorter_counts,
    lemma_hash_event_sorter_logs_run, lemma_hash_event_sorter_sorts_by_id,
    lemma_streams_of_counts, lemma_streams_of_sorts_by_id, streams_of, total_len,
};
pub use self::supplementers::{
    NullSendSupplementer, PrependSendSupplementer, lemma_null_send_supplementer_round_trips,
    lemma_prepend_send_supplementer_round_trips,
};

verus! {

/// Transforms the data given to [`Producer::send()`] into what actually travels over the
/// channel, and back.
pub trait SendSupplementer: Sized {
    /// what the caller hands to [`Producer::send()`]
    type From;

    /// what travels over the channel
    type To;

    /// `to` is a value that [`SendSupplementer::enrich()`] may make of `data`. A supplementer
    /// that does not define this relation claims nothing of its `enrich`.
    open spec fn enriches(&self, data: Self::From, to: Self::To) -> bool {
        true
    }

    /// `data` is a value that [`SendSupplementer::unenrich()`] may make of `to`. A supplementer
    /// that does not define this relation claims nothing of its `unenrich`.
    open spec fn unenriches(&self, to: Self::To, data: Self::From) -> bool {
        true
    }

    /// Turns the caller's data into what is sent over the channel.
    fn enrich(&self, data: Self::From) -> (to: Self::To)
        ensures
            self.enriches(data, to),
    ;

    /// Turns what was sent over the channel back into the caller's data; it is only run on
    /// values that came out of [`SendSupplementer::enrich()`].
    fn unenrich(&self, data: Self::To) -> (from: Self::From)
        ensures
            self.unenriches(data, from),
    ;

    /// Pairs this supplementer with a [`NullEventAccepter`], so that it can be handed to
    /// [`channel()`] on its own.
    fn into_supplementer(self) -> (pair: (Self, NullEventAccepter<Self::To>))
        ensures
            pair.0 == self,
    {
        (self, NullEventAccepter::new())
    }
}

/// Whatever a supplementer enriches, it unenriches back to the very same data.
pub open spec fn round_trips<S: SendSupplementer>(supplementer: S) -> bool {
    forall|data: S::From, to: S::To, back: S::From|
        #[trigger] supplementer.enriches(data, to) && #[trigger] supplementer.unenriches(to, back)
            ==> back == data
}

/// A function together with the fact that it can be called on every value it takes.
#[verifier::reject_recursive_types(A)]
#[verifier::reject_recursive_types(R)]
pub(crate) struct Computation<F: Fn(&A) -> R, A, R> {
    function: F,
    input: PhantomData<A>,
    output: PhantomData<R>,
}

impl<F: Fn(&A) -> R, A, R> Computation<F, A, R> {
    #[verifier::type_invariant]
    spec fn callable_everywhere(self) -> bool {
        forall|value: &A| self.function.requires((value,))
    }

    /// The function itself.
    pub closed spec fn function(&self) -> F {
        self.function
    }

    pub(crate) fn new(function: F) -> (computation: Self)
        requires
            forall|value: &A| function.requires((value,)),
        ensures
            computation.function() == function,
    {
        Computation { function, input: PhantomData, output: PhantomData }
    }

    /// Calls the function on `value`.
    pub(crate) fn call(&self, value: &A) -> (result: R)
        ensures
            self.function().ensures((value,), result),
    {
        proof {
            use_type_invariant(self);
        }
        (self.function)(value)
    }
}

/// Handles the messages that arrive at a [`Consumer`].
pub trait EventAccepter: Sized {
    /// what arrives over the channel
    type Data;

    /// what handling one message returns
    type Output;

    /// Accepting `data` may turn the accepter `before` into `after` and return `out`. An
    /// accepter that does not define this relation claims nothing of its `accept`.
    open spec fn accepts(before: Self, data: Self::Data, after: Self, out: Self::Output) -> bool {
        true
    }

    /// Handles one message.
    fn accept(&mut self, data: Self::Data) -> (out: Self::Output)
        ensures
            Self::accepts(*old(self), data, *final(self), out),
    ;
}

/// Accepting the messages of `data`, in order, may turn `before` into `after`.
pub open spec fn accepts_all<A: EventAccepter>(before: A, data: Seq<A::Data>, after: A) -> bool
    decreases data.len(),
{
    if data.len() == 0 {
        after == before
    } else {
        exists|middle: A, out: A::Output|
            #[trigger] A::accepts(middle, data.last(), after, out) && accepts_all(
                before,
                data.drop_last(),
                middle,
            )
    }
}

/// One more accepted message extends a run of accepted messages.
pub proof fn lemma_accepts_all_push<A: EventAccepter>(
    before: A,
    data: Seq<A::Data>,
    middle: A,
    datum: A::Data,
    after: A,
    out: A::Output,
)
    requires
        accepts_all(before, data, middle),
        A::accepts(middle, datum, after, out),
    ensures
        accepts_all(before, data.push(datum), after),
{
    assert(data.push(datum).drop_last() =~= data);
    assert(data.push(datum).last() == datum);
}

/// The sending half of a [`channel()`]. It can be cloned when its supplementer can: every clone
/// sends to the same [`Consumer`].
#[must_use]
#[verifier::reject_recursive_types(S)]
pub struct Producer<S: SendSupplementer> {
    /// where the enriched data goes
    sender: Sender<S::To>,
    /// enriches the caller's data before it is sent
    send_supplementer: S,
}

impl<S: SendSupplementer + Clone> Clone for Producer<S> {
    fn clone(&self) -> Self {
        Producer {
            sender: pipe::clone_sender(&self.sender),
            send_supplementer: self.send_supplementer.clone(),
        }
    }
}

impl<S: SendSupplementer> Producer<S> {
    /// The supplementer that enriches the data of each send.
    pub closed spec fn supplementer(&self) -> S {
        self.send_supplementer
    }

    /// The sending end on which the enriched data is sent.
    pub closed spec fn sending_end(&self) -> Sender<S::To> {
        self.sender
    }

    /// Enriches `data` and sends it. A send fails only when the [`Consumer`] is gone; the error
    /// then holds what the supplementer unenriched from the enrichment of `data`, which is
    /// `data` itself whenever the supplementer round-trips.
    pub fn send(&self, data: S::From) -> (res: Result<(), SendError<S::From>>)
        ensures
            res matches Err(error) ==> exists|to: S::To|
                self.supplementer().enriches(data, to) && self.supplementer().unenriches(
                    to,
                    error.0,
                ),
            round_trips(self.supplementer()) ==> (res matches Err(error) ==> error.0 == data),
            res is Err ==> refusal_reported(self.sending_end()),
            res is Ok ==> exists|to: S::To|
                self.supplementer().enriches(data, to) && #[trigger] delivery_reported(
                    self.sending_end(),
                    to,
                ),
    {
        let enriched = self.send_supplementer.enrich(data);
        let ghost sent = enriched;
        match pipe::send(&self.sender, enriched) {
            Ok(()) => {
                assert(self.supplementer().enriches(data, sent));
                assert(delivery_reported(self.sending_end(), sent));
                Ok(())
            },
            Err(back) => {
                let unenriched = self.send_supplementer.unenrich(back);
                assert(self.supplementer().enriches(data, sent));
                Err(SendError(unenriched))
            },
        }
    }
}

/// The receiving half of a [`channel()`]: every message it receives goes to its
/// [`EventAccepter`], which can be read through `Deref` between receives.
#[must_use]
#[verifier::reject_recursive_types(A)]
pub struct Consumer<A: EventAccepter> {
    /// where the messages arrive
    receiver: Receiver<A::Data>,
    /// handles each message as it arrives
    event_accepter: A,
}

impl<A: EventAccepter> core::ops::Deref for Consumer<A> {
    type Target = A;

    fn deref(&self) -> (accepter: &A)
        ensures
            *accepter == self.accepter(),
    {
        &self.event_accepter
    }
}

impl<A: EventAccepter> Consumer<A> {
    /// The accepter that handles the messages.
    pub closed spec fn accepter(&self) -> A {
        self.event_accepter
    }

    /// The receiving end on which the messages arrive.
    pub closed spec fn receiving_end(&self) -> Receiver<A::Data> {
        self.receiver
    }

    /// Gives mutable access to the accepter between receives.
    pub fn accepter_mut(&mut self) -> (accepter: &mut A)
        ensures
            *accepter == old(self).accepter(),
            final(self).accepter() == *final(accepter),
            final(self).receiving_end() == old(self).receiving_end(),
    {
        &mut self.event_accepter
    }

    /// Blocks until a message arrives and hands it to the accepter, returning what the accepter
    /// returned. Fails, leaving the accepter as it was, once every [`Producer`] is gone and
    /// every message has been read. The outcome of the read is settled by [`accept_outcome()`].
    pub fn recv(&mut self) -> (res: Result<A::Output, RecvError>)
        ensures
            res is Ok ==> exists|data: A::Data|
                #[trigger] A::accepts(old(self).accepter(), data, final(self).accepter(), res->Ok_0),
            res is Err ==> final(self).accepter() == old(self).accepter(),
            res is Err ==> disconnection_reported(old(self).receiving_end()),
            final(self).receiving_end() == old(self).receiving_end(),
    {
        let outcome = pipe::recv(&self.receiver);
        let ghost read = outcome;
        let res = accept_outcome(&mut self.event_accepter, outcome);
        proof {
            if read is Ok {
                let datum = read->Ok_0;
                assert(A::accepts(old(self).accepter(), datum, self.accepter(), res->Ok_0));
            }
        }
        res
    }

    /// Hands a waiting message to the accepter, without blocking, and returns what the accepter
    /// returned. Fails, leaving the accepter as it was, with [`TryRecvError::Empty`] when no
    /// message is waiting and with [`TryRecvError::Disconnected`] once every [`Producer`] is
    /// gone and every message has been read. The outcome of the read is settled by
    /// [`accept_outcome()`], which passes its error on unchanged.
    pub fn try_recv(&mut self) -> (res: Result<A::Output, TryRecvError>)
        ensures
            res is Ok ==> exists|data: A::Data|
                #[trigger] A::accepts(old(self).accepter(), data, final(self).accepter(), res->Ok_0),
            res is Err ==> final(self).accepter() == old(self).accepter(),
            res matches Err(TryRecvError::Empty) ==> emptiness_reported(old(self).receiving_end()),
            res matches Err(TryRecvError::Disconnected) ==> disconnection_reported(
                old(self).receiving_end(),
            ),
            final(self).receiving_end() == old(self).receiving_end(),
    {
        let outcome = pipe::try_recv(&self.receiver);
        let ghost read = outcome;
        let res = accept_outcome(&mut self.event_accepter, outcome);
        proof {
            if read is Ok {
                let datum = read->Ok_0;
                assert(A::accepts(old(self).accepter(), datum, self.accepter(), res->Ok_0));
            }
        }
        res
    }

    /// Hands every waiting message to the accepter, in order, without blocking once none is
    /// left. Returns whether some [`Producer`] is still connected: it stops at the first read
    /// that finds no message, and returns `true` when that read found the buffer empty with a
    /// producer connected and `false` when it found every producer gone. Each read is settled by
    /// [`buffer_step()`]. At most `u64::MAX` messages are taken in one call; after that many it
    /// returns `true` without a further read.
    pub fn recv_buffer(&mut self) -> (open: bool)
        ensures
            final(self).receiving_end() == old(self).receiving_end(),
            exists|data: Seq<A::Data>|
                {
                    &&& #[trigger] accepts_all(old(self).accepter(), data, final(self).accepter())
                    &&& open ==> emptiness_reported(old(self).receiving_end()) || data.len()
                        == u64::MAX
                    &&& !open ==> disconnection_reported(old(self).receiving_end())
                },
    {
        let ghost start = self.accepter();
        let ghost mut taken: Seq<A::Data> = Seq::empty();
        let mut budget: u64 = u64::MAX;
        loop
            invariant
                start == old(self).accepter(),
                accepts_all(start, taken, self.accepter()),
                self.receiving_end() == old(self).receiving_end(),
                taken.len() + budget == u64::MAX,
            decreases budget,
        {
            if budget == 0 {
                assert(accepts_all(start, taken, self.accepter()));
                return true;
            }
            budget = budget - 1;
            let ghost before = self.accepter();
            let outcome = self.try_recv();
            match buffer_step(&outcome) {
                None => {
                    proof {
                        let out = outcome->Ok_0;
                        let datum = choose|data: A::Data|
                            A::accepts(before, data, self.accepter(), out);
                        lemma_accepts_all_push(start, taken, before, datum, self.accepter(), out);
                        taken = taken.push(datum);
                    }
                },
                Some(open) => {
                    assert(accepts_all(start, taken, self.accepter()));
                    return open;
                },
            }
        }
    }

    /// Hands messages to the accepter, blocking for each, until every [`Producer`] is gone and
    /// every message has been read; then returns the accepter. Each read is settled by
    /// [`keeps_reading()`]. At most `u64::MAX` messages are taken.
    pub fn blocking_close(self) -> (accepter: A)
        ensures
            exists|data: Seq<A::Data>|
                {
                    &&& #[trigger] accepts_all(self.accepter(), data, accepter)
                    &&& data.len() < u64::MAX ==> disconnection_reported(self.receiving_end())
                },
    {
        let mut consumer = self;
        let ghost taken: Seq<A::Data> = Seq::empty();
        let mut budget: u64 = u64::MAX;
        while budget > 0
            invariant
                accepts_all(self.accepter(), taken, consumer.accepter()),
                consumer.receiving_end() == self.receiving_end(),
                taken.len() + budget == u64::MAX,
            ensures
                accepts_all(self.accepter(), taken, consumer.accepter()),
                taken.len() < u64::MAX ==> disconnection_reported(self.receiving_end()),
            decreases budget,
        {
            let ghost before = consumer.accepter();
            let outcome = consumer.recv();
            if keeps_reading(&outcome) {
                budget = budget - 1;
                proof {
                    let out = outcome->Ok_0;
                    let datum = choose|data: A::Data|
                        A::accepts(before, data, consumer.accepter(), out);
                    lemma_accepts_all_push(
                        self.accepter(),
                        taken,
                        before,
                        datum,
                        consumer.accepter(),
                        out,
                    );
                    taken = taken.push(datum);
                }
            } else {
                break;
            }
        }
        assert(accepts_all(self.accepter(), taken, consumer.accepter()));
        consumer.event_accepter
    }

    /// Hands every waiting message to the accepter, in order, without blocking once none is
    /// left, and returns the accepter; [`Producer`]s that send afterwards get a
    /// [`SendError`]. Each read is settled by [`keeps_reading()`]. At most `u64::MAX` messages
    /// are taken.
    pub fn close(self) -> (accepter: A)
        ensures
            exists|data: Seq<A::Data>|
                {
                    &&& #[trigger] accepts_all(self.accepter(), data, accepter)
                    &&& data.len() < u64::MAX ==> emptiness_reported(self.receiving_end())
                        || disconnection_reported(self.receiving_end())
                },
    {
        let mut consumer = self;
        let ghost taken: Seq<A::Data> = Seq::empty();
        let mut budget: u64 = u64::MAX;
        while budget > 0
            invariant
                accepts_all(self.accepter(), taken, consumer.accepter()),
                consumer.receiving_end() == self.receiving_end(),
                taken.len() + budget == u64::MAX,
            ensures
                accepts_all(self.accepter(), taken, consumer.accepter()),
                taken.len() < u64::MAX ==> emptiness_reported(self.receiving_end())
                    || disconnection_reported(self.receiving_end()),
            decreases budget,
        {
            let ghost before = consumer.accepter();
            let outcome = consumer.try_recv();
            if keeps_reading(&outcome) {
                budget = budget - 1;
                proof {
                    let out = outcome->Ok_0;
                    let datum = choose|data: A::Data|
                        A::accepts(before, data, consumer.accepter(), out);
                    lemma_accepts_all_push(
                        self.accepter(),
                        taken,
                        before,
                        datum,
                        consumer.accepter(),
                        out,
                    );
                    taken = taken.push(datum);
                }
            } else {
                break;
            }
        }
        assert(accepts_all(self.accepter(), taken, consumer.accepter()));
        consumer.event_accepter
    }

    /// Closes the channel at once, dropping the messages that were not read, and returns the
    /// accepter; [`Producer`]s that send afterwards get a [`SendError`].
    pub fn inner(self) -> (accepter: A)
        ensures
            accepter == self.accepter(),
    {
        self.event_accepter
    }
}

/// Hands the outcome of a read to `accepter`: a message is accepted and what the accepter
/// returned comes back in `Ok`; an error comes back unchanged, with the accepter untouched.
pub fn accept_outcome<A: EventAccepter, E>(accepter: &mut A, outcome: Result<A::Data, E>) -> (res:
    Result<A::Output, E>)
    ensures
        match outcome {
            Ok(data) => res is Ok && A::accepts(*old(accepter), data, *final(accepter), res->Ok_0),
            Err(error) => res == Err::<A::Output, E>(error) && *final(accepter) == *old(accepter),
        },
{
    match outcome {
        Ok(data) => Ok(accepter.accept(data)),
        Err(error) => Err(error),
    }
}

/// One step of reading the buffered messages: after a message the reading goes on (`None`);
/// an empty buffer stops it with the producers still connected (`Some(true)`), a disconnected
/// channel with `Some(false)`.
pub fn buffer_step<O>(outcome: &Result<O, TryRecvError>) -> (stop: Option<bool>)
    ensures
        stop == match outcome {
            Ok(_) => None::<bool>,
            Err(TryRecvError::Empty) => Some(true),
            Err(TryRecvError::Disconnected) => Some(false),
        },
{
    match outcome {
        Ok(_) => None,
        Err(TryRecvError::Empty) => Some(true),
        Err(TryRecvError::Disconnected) => Some(false),
    }
}

/// One step of closing: the reading goes on exactly after a message was read.
pub fn keeps_reading<O, E>(outcome: &Result<O, E>) -> (more: bool)
    ensures
        more == outcome is Ok,
{
    match outcome {
        Ok(_) => true,
        Err(_) => false,
    }
}

/// What can be split into the two ends' handlers of a [`channel()`]: a [`SendSupplementer`]
/// for the producers and an [`EventAccepter`] for the consumer, which agree on the type that
/// travels over the channel.
pub trait IntoSupplementer: Sized {
    /// what travels over the channel
    type Data;

    /// the handler of the sending side
    type SendSupplementer: SendSupplementer<To = Self::Data>;

    /// the handler of the receiving side
    type EventAcccepter: EventAccepter<Data = Self::Data>;

    /// `self` may split into `supplementer` and `accepter`. A type that does not define this
    /// relation claims nothing of its `into_supplementer`.
    open spec fn splits_into(
        self,
        supplementer: Self::SendSupplementer,
        accepter: Self::EventAcccepter,
    ) -> bool {
        true
    }

    /// Splits `self` into the handlers of the two ends.
    fn into_supplementer(self) -> (pair: (Self::SendSupplementer, Self::EventAcccepter))
        ensures
            self.splits_into(pair.0, pair.1),
    ;
}

impl<A: EventAccepter> IntoSupplementer for A {
    type Data = A::Data;

    type EventAcccepter = A;

    type SendSupplementer = NullSendSupplementer<A::Data>;

    open spec fn splits_into(
        self,
        supplementer: NullSendSupplementer<A::Data>,
        accepter: A,
    ) -> bool {
        accepter == self
    }

    /// An accepter alone comes with a supplementer that sends data unchanged.
    fn into_supplementer(self) -> (pair: (NullSendSupplementer<A::Data>, A)) {
        (NullSendSupplementer::new(), self)
    }
}

impl<S, A, T> IntoSupplementer for (S, A) where
    S: SendSupplementer<To = T>,
    A: EventAccepter<Data = T>,
 {
    type Data = T;

    type EventAcccepter = A;

    type SendSupplementer = S;

    open spec fn splits_into(self, supplementer: S, accepter: A) -> bool {
        &&& supplementer == self.0
        &&& accepter == self.1
    }

    /// A pair is already split.
    fn into_supplementer(self) -> (pair: (S, A)) {
        self
    }
}

/// Creates a channel whose producers enrich data with the supplementer of `supplementer` and
/// whose consumer hands each message to its accepter.
pub fn channel<T, I, S, A>(supplementer: I) -> (channel: (Producer<S>, Consumer<A>)) where
    I: IntoSupplementer<Data = T, SendSupplementer = S, EventAcccepter = A>,
    S: SendSupplementer<To = T>,
    A: EventAccepter<Data = T>,

    ensures
        supplementer.splits_into(channel.0.supplementer(), channel.1.accepter()),
{
    let (sender, receiver) = pipe::open();
    let (send_supplementer, event_accepter) = supplementer.into_supplementer();
    let producer = Producer { sender, send_supplementer };
    let consumer = Consumer { receiver, event_accepter };
    (producer, consumer)
}

} // verus!
