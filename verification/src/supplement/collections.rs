//! Event accepters for common collections, and the accepter that keeps nothing.
use super::{EventAccepter, accepts_all};
use std::collections::{BTreeSet, HashSet, VecDeque};
use std::hash::{BuildHasher, Hash};
use std::marker::PhantomData;
use vstd::laws_cmp::obeys_cmp;
use vstd::prelude::*;
use vstd::std_specs::hash::{builds_valid_hashers, obeys_key_model};

verus! {

impl<T> EventAccepter for Vec<T> {
    type Data = T;

    type Output = ();

    open spec fn accepts(before: Self, data: T, after: Self, out: ()) -> bool {
        after@ == before@.push(data)
    }

    /// Appends the message.
    fn accept(&mut self, data: T) {
        self.push(data);
    }
}

impl<T> EventAccepter for VecDeque<T> {
    type Data = T;

    type Output = ();

    open spec fn accepts(before: Self, data: T, after: Self, out: ()) -> bool {
        after@ == before@.push(data)
    }

    /// Appends the message at the back.
    fn accept(&mut self, data: T) {
        self.push_back(data);
    }
}

impl<T: Eq + Hash, H: BuildHasher> EventAccepter for HashSet<T, H> {
    type Data = T;

    type Output = bool;

    open spec fn accepts(before: Self, data: T, after: Self, out: bool) -> bool {
        obeys_key_model::<T>() && builds_valid_hashers::<H>() ==> {
            &&& after@ == before@.insert(data)
            &&& out == !before@.contains(data)
        }
    }

    /// Inserts the message; returns whether it was not in the set before.
    fn accept(&mut self, data: T) -> (out: bool) {
        self.insert(data)
    }
}

impl<T: Ord> EventAccepter for BTreeSet<T> {
    type Data = T;

    type Output = bool;

    open spec fn accepts(before: Self, data: T, after: Self, out: bool) -> bool {
        obeys_cmp::<T>() ==> {
            &&& after@ == before@.insert(data)
            &&& out == !before@.contains(data)
        }
    }

    /// Inserts the message; returns whether it was not in the set before.
    fn accept(&mut self, data: T) -> (out: bool) {
        self.insert(data)
    }
}

/// A `Vec` that accepts a run of messages holds them after what it held before, in the order
/// they arrived.
pub proof fn lemma_vec_keeps_arrival_order<T>(before: Vec<T>, data: Seq<T>, after: Vec<T>)
    requires
        accepts_all(before, data, after),
    ensures
        after@ == before@ + data,
    decreases data.len(),
{
    if data.len() == 0 {
        assert(before@ + data =~= before@);
    } else {
        let (middle, out) = choose|middle: Vec<T>, out: ()|
            #[trigger] <Vec<T> as EventAccepter>::accepts(middle, data.last(), after, out)
                && accepts_all(before, data.drop_last(), middle);
        lemma_vec_keeps_arrival_order(before, data.drop_last(), middle);
        assert(before@ + data =~= (before@ + data.drop_last()).push(data.last()));
    }
}

/// A `VecDeque` that accepts a run of messages holds them after what it held before, in the
/// order they arrived.
pub proof fn lemma_vec_deque_keeps_arrival_order<T>(
    before: VecDeque<T>,
    data: Seq<T>,
    after: VecDeque<T>,
)
    requires
        accepts_all(before, data, after),
    ensures
        after@ == before@ + data,
    decreases data.len(),
{
    if data.len() == 0 {
        assert(before@ + data =~= before@);
    } else {
        let (middle, out) = choose|middle: VecDeque<T>, out: ()|
            #[trigger] <VecDeque<T> as EventAccepter>::accepts(middle, data.last(), after, out)
                && accepts_all(before, data.drop_last(), middle);
        lemma_vec_deque_keeps_arrival_order(before, data.drop_last(), middle);
        assert(before@ + data =~= (before@ + data.drop_last()).push(data.last()));
    }
}

/// [`EventAccepter`] that keeps the messages in a list, in the order they arrived, each new
/// one at the back.
#[verifier::reject_recursive_types(T)]
pub struct ListAccepter<T> {
    /// the messages, oldest first
    items: VecDeque<T>,
}

impl<T> ListAccepter<T> {
    /// The messages, oldest first.
    pub closed spec fn items(&self) -> Seq<T> {
        self.items@
    }

    /// Creates an empty list.
    #[must_use]
    pub fn new() -> (list: Self)
        ensures
            list.items() == Seq::<T>::empty(),
    {
        ListAccepter { items: VecDeque::new() }
    }

    /// The number of messages in the list.
    pub fn len(&self) -> (count: usize)
        ensures
            count == self.items().len(),
    {
        self.items.len()
    }

    /// Gives up the list and returns its messages, oldest first.
    pub fn into_inner(self) -> (items: VecDeque<T>)
        ensures
            items@ == self.items(),
    {
        self.items
    }
}

impl<T> EventAccepter for ListAccepter<T> {
    type Data = T;

    type Output = ();

    open spec fn accepts(before: Self, data: T, after: Self, out: ()) -> bool {
        after.items() == before.items().push(data)
    }

    /// Appends the message at the back.
    fn accept(&mut self, data: T) {
        self.items.push_back(data);
    }
}

/// A [`ListAccepter`] that accepts a run of messages holds them after what it held before, in
/// the order they arrived.
pub proof fn lemma_list_accepter_keeps_arrival_order<T>(
    before: ListAccepter<T>,
    data: Seq<T>,
    after: ListAccepter<T>,
)
    requires
        accepts_all(before, data, after),
    ensures
        after.items() == before.items() + data,
    decreases data.len(),
{
    if data.len() == 0 {
        assert(before.items() + data =~= before.items());
    } else {
        let (middle, out) = choose|middle: ListAccepter<T>, out: ()|
            #[trigger] <ListAccepter<T> as EventAccepter>::accepts(middle, data.last(), after, out)
                && accepts_all(before, data.drop_last(), middle);
        lemma_list_accepter_keeps_arrival_order(before, data.drop_last(), middle);
        assert(before.items() + data =~= (before.items() + data.drop_last()).push(data.last()));
    }
}

/// A `HashSet` whose element type obeys the hashing model holds, after a run of messages, what
/// it held before together with every message of the run.
pub proof fn lemma_hash_set_collects<T: Eq + Hash, H: BuildHasher>(
    before: HashSet<T, H>,
    data: Seq<T>,
    after: HashSet<T, H>,
)
    requires
        obeys_key_model::<T>(),
        builds_valid_hashers::<H>(),
        accepts_all(before, data, after),
    ensures
        after@ == before@ + data.to_set(),
    decreases data.len(),
{
    if data.len() == 0 {
        assert(before@ + data.to_set() =~= before@);
    } else {
        let (middle, out) = choose|middle: HashSet<T, H>, out: bool|
            #[trigger] <HashSet<T, H> as EventAccepter>::accepts(middle, data.last(), after, out)
                && accepts_all(before, data.drop_last(), middle);
        lemma_hash_set_collects(before, data.drop_last(), middle);
        assert(data.to_set() =~= data.drop_last().to_set().insert(data.last())) by {
            assert(data =~= data.drop_last().push(data.last()));
            data.drop_last().lemma_push_to_set_commute(data.last());
        }
        assert(after@ =~= before@ + data.to_set());
    }
}

/// A `BTreeSet` whose element type obeys the ordering laws holds, after a run of messages, what
/// it held before together with every message of the run.
pub proof fn lemma_btree_set_collects<T: Ord>(before: BTreeSet<T>, data: Seq<T>, after: BTreeSet<T>)
    requires
        obeys_cmp::<T>(),
        accepts_all(before, data, after),
    ensures
        after@ == before@ + data.to_set(),
    decreases data.len(),
{
    if data.len() == 0 {
        assert(before@ + data.to_set() =~= before@);
    } else {
        let (middle, out) = choose|middle: BTreeSet<T>, out: bool|
            #[trigger] BTreeSet::<T>::accepts(middle, data.last(), after, out)
                && accepts_all(before, data.drop_last(), middle);
        lemma_btree_set_collects(before, data.drop_last(), middle);
        assert(data.to_set() =~= data.drop_last().to_set().insert(data.last())) by {
            assert(data =~= data.drop_last().push(data.last()));
            data.drop_last().lemma_push_to_set_commute(data.last());
        }
        assert(after@ =~= before@ + data.to_set());
    }
}

/// An [`EventAccepter`] that keeps nothing and hands each message back unchanged.
pub struct NullEventAccepter<T>(PhantomData<T>);

impl<T> NullEventAccepter<T> {
    /// Creates a new [`NullEventAccepter`].
    #[must_use]
    pub fn new() -> Self {
        NullEventAccepter(PhantomData)
    }
}

impl<T> Default for NullEventAccepter<T> {
    fn default() -> Self {
        Self::new()
    }
}

impl<T> EventAccepter for NullEventAccepter<T> {
    type Data = T;

    type Output = T;

    open spec fn accepts(before: Self, data: T, after: Self, out: T) -> bool {
        &&& after == before
        &&& out == data
    }

    /// Hands the message back.
    fn accept(&mut self, data: T) -> (out: T) {
        data
    }
}

/// A [`NullEventAccepter`] stays as it is whatever it accepts.
pub proof fn lemma_null_event_accepter_unchanged<T>(
    before: NullEventAccepter<T>,
    data: Seq<T>,
    after: NullEventAccepter<T>,
)
    requires
        accepts_all(before, data, after),
    ensures
        after == before,
    decreases data.len(),
{
    if data.len() > 0 {
        let (middle, out) = choose|middle: NullEventAccepter<T>, out: T|
            #[trigger] <NullEventAccepter<T> as EventAccepter>::accepts(
                middle,
                data.last(),
                after,
                out,
            ) && accepts_all(before, data.drop_last(), middle);
        lemma_null_event_accepter_unchanged(before, data.drop_last(), middle);
    }
}

} // verus!
