//! Accepters that sort events into streams by an id computed from each event.
use super::{Computation, EventAccepter, accepts_all};
use std::collections::{BTreeMap, HashMap};
use std::hash::{BuildHasher, Hash, RandomState};
use vstd::laws_cmp::obeys_cmp;
use vstd::prelude::*;
use vstd::std_specs::hash::{builds_valid_hashers, obeys_key_model};

verus! {

broadcast use {vstd::std_specs::hash::group_hash_axioms, vstd::std_specs::btree::group_btree_axioms};

/// `streams` with `data` added at the end of the stream of `id`; a new id opens a stream.
pub open spec fn add_to_stream<I, T>(streams: Map<I, Seq<T>>, id: I, data: T) -> Map<I, Seq<T>> {
    streams.insert(
        id,
        if streams.contains_key(id) {
            streams[id].push(data)
        } else {
            seq![data]
        },
    )
}

/// The streams into which a log of `(id, event)` pairs sorts, each event going to the stream of
/// its id.
pub open spec fn streams_of<I, T>(log: Seq<(I, T)>) -> Map<I, Seq<T>>
    decreases log.len(),
{
    if log.len() == 0 {
        Map::empty()
    } else {
        add_to_stream(streams_of(log.drop_last()), log.last().0, log.last().1)
    }
}

/// The events of `log` whose id is `id`, in the order of the log.
pub open spec fn events_with_id<I, T>(log: Seq<(I, T)>, id: I) -> Seq<T> {
    log.filter(|entry: (I, T)| entry.0 == id).map_values(|entry: (I, T)| entry.1)
}

/// Sorting a log opens a stream exactly for the ids that occur in it, and the stream of an id
/// holds the events of that id in the order of the log; so no stream is empty.
pub proof fn lemma_streams_of_sorts_by_id<I, T>(log: Seq<(I, T)>, id: I)
    ensures
        streams_of(log).contains_key(id) <==> events_with_id(log, id).len() > 0,
        streams_of(log).contains_key(id) ==> streams_of(log)[id] == events_with_id(log, id),
    decreases log.len(),
{
    let pred = |entry: (I, T)| entry.0 == id;
    let second = |entry: (I, T)| entry.1;
    if log.len() == 0 {
        reveal(Seq::filter);
        assert(log.filter(pred) =~= Seq::<(I, T)>::empty());
    } else {
        let prefix = log.drop_last();
        let last = log.last();
        lemma_streams_of_sorts_by_id(prefix, id);
        assert(log =~= prefix.push(last));
        prefix.lemma_filter_push(last, pred);
        if pred(last) {
            assert(prefix.filter(pred).push(last).map_values(second) =~= prefix.filter(
                pred,
            ).map_values(second).push(last.1));
        }
    }
}

/// The different ids that occur in `log`.
pub open spec fn ids_of<I, T>(log: Seq<(I, T)>) -> Set<I> {
    Set::new(|id: I| exists|i: int| 0 <= i < log.len() && #[trigger] log[i].0 == id)
}

/// How many events the streams hold together: the sum of the lengths of the streams.
pub open spec fn total_len<I, T>(streams: Map<I, Seq<T>>) -> nat
    decreases streams.dom().len(),
{
    if streams.dom().finite() && streams.dom().len() > 0 {
        let id = streams.dom().choose();
        proof {
            assert(streams.remove(id).dom() =~= streams.dom().remove(id));
        }
        streams[id].len() + total_len(streams.remove(id))
    } else {
        0
    }
}

/// The total length counts each stream once, whichever stream is taken first.
proof fn lemma_total_len_remove<I, T>(streams: Map<I, Seq<T>>, id: I)
    requires
        streams.dom().finite(),
        streams.contains_key(id),
    ensures
        total_len(streams) == streams[id].len() + total_len(streams.remove(id)),
    decreases streams.dom().len(),
{
    let first = streams.dom().choose();
    assert(streams.remove(id).dom() =~= streams.dom().remove(id));
    assert(streams.remove(first).dom() =~= streams.dom().remove(first));
    if first != id {
        lemma_total_len_remove(streams.remove(first), id);
        lemma_total_len_remove(streams.remove(id), first);
        assert(streams.remove(first).remove(id) =~= streams.remove(id).remove(first));
    }
}

/// Adding an event to a stream adds one to the total length and opens at most one stream.
proof fn lemma_add_to_stream_counts<I, T>(streams: Map<I, Seq<T>>, id: I, data: T)
    requires
        streams.dom().finite(),
    ensures
        add_to_stream(streams, id, data).dom() == streams.dom().insert(id),
        total_len(add_to_stream(streams, id, data)) == total_len(streams) + 1,
{
    let added = add_to_stream(streams, id, data);
    assert(added.dom() =~= streams.dom().insert(id));
    lemma_total_len_remove(added, id);
    if streams.contains_key(id) {
        lemma_total_len_remove(streams, id);
        assert(added.remove(id) =~= streams.remove(id));
    } else {
        assert(added.remove(id) =~= streams);
    }
}

/// Sorting a log opens one stream for each different id in it, and the streams together hold
/// every event of the log; so there are no more streams than events.
pub proof fn lemma_streams_of_counts<I, T>(log: Seq<(I, T)>)
    ensures
        streams_of(log).dom() == ids_of(log),
        ids_of(log).finite(),
        total_len(streams_of(log)) == log.len(),
        ids_of(log).len() <= log.len(),
    decreases log.len(),
{
    if log.len() == 0 {
        assert(ids_of(log) =~= Set::<I>::empty());
        assert(streams_of(log).dom() =~= Set::<I>::empty());
    } else {
        let prefix = log.drop_last();
        let last = log.last();
        lemma_streams_of_counts(prefix);
        lemma_add_to_stream_counts(streams_of(prefix), last.0, last.1);
        assert forall|id: I| ids_of(log).contains(id) <==> ids_of(prefix).insert(last.0).contains(
            id,
        ) by {
            if ids_of(log).contains(id) && id != last.0 {
                let i = choose|i: int| 0 <= i < log.len() && #[trigger] log[i].0 == id;
                assert(prefix[i].0 == id);
            }
            if ids_of(prefix).contains(id) {
                let i = choose|i: int| 0 <= i < prefix.len() && #[trigger] prefix[i].0 == id;
                assert(log[i].0 == id);
            }
            if id == last.0 {
                assert(log[log.len() - 1].0 == id);
            }
        }
        assert(ids_of(log) =~= ids_of(prefix).insert(last.0));
    }
}

/// A function of std that vstd gives no specification: `HashMap::with_hasher`, which creates
/// an empty map that hashes with `hash_builder`. Claimed: the map is empty.
#[verifier::external_body]
fn empty_hash_map_with_hasher<K, V, S>(hash_builder: S) -> (created: HashMap<K, V, S>)
    ensures
        created@.dom() == Set::<K>::empty(),
{
    HashMap::with_hasher(hash_builder)
}

/// `count` capped at `usize::MAX`.
pub open spec fn capped(count: nat) -> usize {
    if count <= usize::MAX {
        count as usize
    } else {
        usize::MAX
    }
}

/// [`EventAccepter`] that sorts events into streams, one per id that its function computes from
/// the events, held in a `HashMap` from ids to the events of each id in arrival order.
#[must_use]
#[verifier::reject_recursive_types(T)]
#[verifier::reject_recursive_types(I)]
#[verifier::reject_recursive_types(S)]
pub struct HashEventSorter<T, I, F: Fn(&T) -> I, S: BuildHasher> {
    /// the streams
    events: HashMap<I, Vec<T>, S>,
    /// computes the id of an event
    id_function: Computation<F, T, I>,
    /// how many events were accepted, capped at `usize::MAX`
    count: usize,
    /// every accepted event with its id, in arrival order
    log: Ghost<Seq<(I, T)>>,
}

impl<T, I: Eq + Hash, F: Fn(&T) -> I> HashEventSorter<T, I, F, RandomState> {
    /// Creates an empty sorter that computes ids with `id_function`.
    pub fn new(id_function: F) -> (sorter: Self)
        requires
            forall|event: &T| id_function.requires((event,)),
        ensures
            sorter.well_formed(),
            sorter.id_function() == id_function,
            sorter.accepted() == Seq::<(I, T)>::empty(),
            sorter.map()@ == Map::<I, Vec<T>>::empty(),
    {
        let sorter = HashEventSorter {
            events: HashMap::new(),
            id_function: Computation::new(id_function),
            count: 0,
            log: Ghost(Seq::empty()),
        };
        assert(sorter.streams() =~= streams_of(Seq::<(I, T)>::empty()));
        sorter
    }
}

impl<T, I: Eq + Hash, F: Fn(&T) -> I, S: BuildHasher> HashEventSorter<T, I, F, S> {
    /// The map from ids to streams.
    pub closed spec fn map(&self) -> HashMap<I, Vec<T>, S> {
        self.events
    }

    /// The streams, each as the sequence of its events.
    pub open spec fn streams(&self) -> Map<I, Seq<T>> {
        self.map()@.map_values(|stream: Vec<T>| stream@)
    }

    /// The function that computes ids.
    pub closed spec fn id_function(&self) -> F {
        self.id_function.function()
    }

    /// Every event accepted so far with the id it was given, in arrival order.
    pub closed spec fn accepted(&self) -> Seq<(I, T)> {
        self.log@
    }

    /// The count of events is that of the accepted events, and, when ids obey the hashing model,
    /// the streams are the accepted events sorted by id.
    pub closed spec fn well_formed(&self) -> bool {
        &&& self.count == capped(self.log@.len())
        &&& obeys_key_model::<I>() && builds_valid_hashers::<S>() ==> self.streams()
            == streams_of(self.log@)
    }

    /// Creates an empty sorter that computes ids with `id_function` and hashes them with
    /// `hash_builder`.
    pub fn with_hasher(id_function: F, hash_builder: S) -> (sorter: Self)
        requires
            forall|event: &T| id_function.requires((event,)),
        ensures
            sorter.well_formed(),
            sorter.id_function() == id_function,
            sorter.accepted() == Seq::<(I, T)>::empty(),
            sorter.map()@ == Map::<I, Vec<T>>::empty(),
    {
        let sorter = HashEventSorter {
            events: empty_hash_map_with_hasher(hash_builder),
            id_function: Computation::new(id_function),
            count: 0,
            log: Ghost(Seq::empty()),
        };
        assert(sorter.streams() =~= streams_of(Seq::<(I, T)>::empty()));
        sorter
    }

    /// Gives up the sorter and returns its map.
    pub fn inner(self) -> (map: HashMap<I, Vec<T>, S>)
        ensures
            map == self.map(),
    {
        self.events
    }

    /// The number of different ids that have a stream.
    pub fn num_streams(&self) -> (count: usize)
        ensures
            obeys_key_model::<I>() && builds_valid_hashers::<S>() ==> count
                == self.streams().dom().len(),
            obeys_key_model::<I>() && builds_valid_hashers::<S>() && self.well_formed() ==> count
                == ids_of(self.accepted()).len(),
    {
        proof {
            assert(self.streams().dom() =~= self.map()@.dom());
            lemma_streams_of_counts(self.log@);
        }
        self.events.len()
    }

    /// The number of events held across all streams (capped at `usize::MAX`).
    pub fn num_events(&self) -> (count: usize)
        ensures
            self.well_formed() ==> count == capped(self.accepted().len()),
            obeys_key_model::<I>() && builds_valid_hashers::<S>() && self.well_formed() ==> count
                == capped(total_len(self.streams())),
    {
        proof {
            lemma_streams_of_counts(self.log@);
        }
        self.count
    }
}

/// After a run of accepted events a sorter has logged, after what it had logged, exactly the
/// events of the run in arrival order; it keeps its id function, and it stays well formed.
pub proof fn lemma_hash_event_sorter_logs_run<T, I: Eq + Hash, F: Fn(&T) -> I, S: BuildHasher>(
    before: HashEventSorter<T, I, F, S>,
    data: Seq<T>,
    after: HashEventSorter<T, I, F, S>,
)
    requires
        accepts_all(before, data, after),
    ensures
        after.id_function() == before.id_function(),
        after.accepted().map_values(|entry: (I, T)| entry.1) == before.accepted().map_values(
            |entry: (I, T)| entry.1,
        ) + data,
        before.well_formed() ==> after.well_formed(),
    decreases data.len(),
{
    let event = |entry: (I, T)| entry.1;
    if data.len() == 0 {
        assert(before.accepted().map_values(event) + data =~= before.accepted().map_values(event));
    } else {
        let (middle, out) = choose|middle: HashEventSorter<T, I, F, S>, out: ()|
            #[trigger] HashEventSorter::<T, I, F, S>::accepts(middle, data.last(), after, out)
                && accepts_all(before, data.drop_last(), middle);
        lemma_hash_event_sorter_logs_run(before, data.drop_last(), middle);
        let id = choose|id: I|
            #[trigger] middle.id_function().ensures((&data.last(),), id) && after.accepted()
                == middle.accepted().push((id, data.last())) && (obeys_key_model::<I>()
                && builds_valid_hashers::<S>() ==> after.streams() == add_to_stream(
                middle.streams(),
                id,
                data.last(),
            ));
        assert(after.accepted().map_values(event) =~= middle.accepted().map_values(event).push(
            data.last(),
        ));
        assert(before.accepted().map_values(event) + data =~= (before.accepted().map_values(event)
            + data.drop_last()).push(data.last()));
    }
}

impl<T, I: Eq + Hash, F: Fn(&T) -> I, S: BuildHasher> From<HashEventSorter<T, I, F, S>> for HashMap<I, Vec<T>, S> {
    /// The map of the sorter.
    fn from(sorter: HashEventSorter<T, I, F, S>) -> (map: Self) {
        sorter.events
    }
}

impl<T, I: Eq + Hash, F: Fn(&T) -> I, S: BuildHasher> vstd::std_specs::convert::FromSpecImpl<HashEventSorter<T, I, F, S>> for HashMap<I, Vec<T>, S> {
    open spec fn obeys_from_spec() -> bool {
        true
    }

    open spec fn from_spec(sorter: HashEventSorter<T, I, F, S>) -> Self {
        sorter.map()
    }
}

impl<T, I: Eq + Hash, F: Fn(&T) -> I, S: BuildHasher> core::ops::Deref for HashEventSorter<
    T,
    I,
    F,
    S,
> {
    type Target = HashMap<I, Vec<T>, S>;

    fn deref(&self) -> (map: &HashMap<I, Vec<T>, S>)
        ensures
            *map == self.map(),
    {
        &self.events
    }
}

impl<T, I: Eq + Hash, F: Fn(&T) -> I, S: BuildHasher> EventAccepter for HashEventSorter<
    T,
    I,
    F,
    S,
> {
    type Data = T;

    type Output = ();

    open spec fn accepts(before: Self, data: T, after: Self, out: ()) -> bool {
        &&& after.id_function() == before.id_function()
        &&& exists|id: I|
            #[trigger] before.id_function().ensures((&data,), id) && after.accepted()
                == before.accepted().push((id, data)) && (obeys_key_model::<I>()
                && builds_valid_hashers::<S>() ==> after.streams() == add_to_stream(
                before.streams(),
                id,
                data,
            ))
        &&& before.well_formed() ==> after.well_formed()
    }

    /// Computes the id of the event and appends the event to the stream of that id.
    fn accept(&mut self, data: T) {
        let id = self.id_function.call(&data);
        let ghost entry = (id, data);
        let ghost before = *self;
        match self.events.remove(&id) {
            Some(stream) => {
                let mut stream = stream;
                stream.push(data);
                self.events.insert(id, stream);
            },
            None => {
                let mut stream = Vec::with_capacity(1);
                stream.push(data);
                self.events.insert(id, stream);
            },
        }
        self.count = self.count.saturating_add(1);
        self.log = Ghost(self.log@.push(entry));
        proof {
            if obeys_key_model::<I>() && builds_valid_hashers::<S>() {
                assert(self.streams() =~= add_to_stream(before.streams(), entry.0, entry.1));
                assert(self.log@.drop_last() =~= before.log@);
            }
            assert(before.id_function().ensures((&entry.1,), entry.0));
        }
    }
}

/// In a well-formed sorter whose ids obey the hashing model, the stream of each id holds
/// exactly the accepted events of that id, in arrival order; so no stream is empty.
pub proof fn lemma_hash_event_sorter_sorts_by_id<T, I: Eq + Hash, F: Fn(&T) -> I, S: BuildHasher>(
    sorter: HashEventSorter<T, I, F, S>,
    id: I,
)
    requires
        sorter.well_formed(),
        obeys_key_model::<I>(),
        builds_valid_hashers::<S>(),
    ensures
        sorter.streams().contains_key(id) <==> events_with_id(sorter.accepted(), id).len() > 0,
        sorter.streams().contains_key(id) ==> sorter.streams()[id] == events_with_id(
            sorter.accepted(),
            id,
        ),
{
    lemma_streams_of_sorts_by_id(sorter.accepted(), id);
}

/// In a well-formed sorter whose ids obey the hashing model, there is one stream for each
/// different id among the accepted events, and the streams together hold every accepted event;
/// so there are no more streams than events.
pub proof fn lemma_hash_event_sorter_counts<T, I: Eq + Hash, F: Fn(&T) -> I, S: BuildHasher>(
    sorter: HashEventSorter<T, I, F, S>,
)
    requires
        sorter.well_formed(),
        obeys_key_model::<I>(),
        builds_valid_hashers::<S>(),
    ensures
        sorter.streams().dom() == ids_of(sorter.accepted()),
        total_len(sorter.streams()) == sorter.accepted().len(),
        sorter.streams().dom().len() <= sorter.accepted().len(),
{
    lemma_streams_of_counts(sorter.accepted());
}

/// [`EventAccepter`] that sorts events into streams, one per id that its function computes from
/// the events, held in a `BTreeMap` from ids to the events of each id in arrival order, so that
/// the streams are ordered by id.
#[must_use]
#[verifier::reject_recursive_types(T)]
#[verifier::reject_recursive_types(I)]
pub struct BTreeEventSorter<T, I, F: Fn(&T) -> I> {
    /// the streams
    events: BTreeMap<I, Vec<T>>,
    /// computes the id of an event
    id_function: Computation<F, T, I>,
    /// how many events were accepted, capped at `usize::MAX`
    count: usize,
    /// every accepted event with its id, in arrival order
    log: Ghost<Seq<(I, T)>>,
}

impl<T, I: Ord, F: Fn(&T) -> I> BTreeEventSorter<T, I, F> {
    /// The map from ids to streams.
    pub closed spec fn map(&self) -> BTreeMap<I, Vec<T>> {
        self.events
    }

    /// The streams, each as the sequence of its events.
    pub open spec fn streams(&self) -> Map<I, Seq<T>> {
        self.map()@.map_values(|stream: Vec<T>| stream@)
    }

    /// The function that computes ids.
    pub closed spec fn id_function(&self) -> F {
        self.id_function.function()
    }

    /// Every event accepted so far with the id it was given, in arrival order.
    pub closed spec fn accepted(&self) -> Seq<(I, T)> {
        self.log@
    }

    /// The count of events is that of the accepted events, and, when ids obey the ordering
    /// laws, the streams are the accepted events sorted by id.
    pub closed spec fn well_formed(&self) -> bool {
        &&& self.count == capped(self.log@.len())
        &&& obeys_cmp::<I>() ==> self.streams() == streams_of(self.log@)
    }

    /// Creates an empty sorter that computes ids with `id_function`.
    pub fn new(id_function: F) -> (sorter: Self)
        requires
            forall|event: &T| id_function.requires((event,)),
        ensures
            sorter.well_formed(),
            sorter.id_function() == id_function,
            sorter.accepted() == Seq::<(I, T)>::empty(),
            sorter.map()@ == Map::<I, Vec<T>>::empty(),
    {
        let sorter = BTreeEventSorter {
            events: BTreeMap::new(),
            id_function: Computation::new(id_function),
            count: 0,
            log: Ghost(Seq::empty()),
        };
        assert(sorter.streams() =~= streams_of(Seq::<(I, T)>::empty()));
        sorter
    }

    /// The number of different ids that have a stream.
    pub fn num_streams(&self) -> (count: usize)
        ensures
            obeys_cmp::<I>() ==> count == self.streams().dom().len(),
            obeys_cmp::<I>() && self.well_formed() ==> count == ids_of(self.accepted()).len(),
    {
        proof {
            assert(self.streams().dom() =~= self.map()@.dom());
            lemma_streams_of_counts(self.log@);
        }
        self.events.len()
    }

    /// The number of events held across all streams (capped at `usize::MAX`).
    pub fn num_events(&self) -> (count: usize)
        ensures
            self.well_formed() ==> count == capped(self.accepted().len()),
            obeys_cmp::<I>() && self.well_formed() ==> count == capped(
                total_len(self.streams()),
            ),
    {
        proof {
            lemma_streams_of_counts(self.log@);
        }
        self.count
    }
}

/// After a run of accepted events a sorter has logged, after what it had logged, exactly the
/// events of the run in arrival order; it keeps its id function, and it stays well formed.
pub proof fn lemma_btree_event_sorter_logs_run<T, I: Ord, F: Fn(&T) -> I>(
    before: BTreeEventSorter<T, I, F>,
    data: Seq<T>,
    after: BTreeEventSorter<T, I, F>,
)
    requires
        accepts_all(before, data, after),
    ensures
        after.id_function() == before.id_function(),
        after.accepted().map_values(|entry: (I, T)| entry.1) == before.accepted().map_values(
            |entry: (I, T)| entry.1,
        ) + data,
        before.well_formed() ==> after.well_formed(),
    decreases data.len(),
{
    let event = |entry: (I, T)| entry.1;
    if data.len() == 0 {
        assert(before.accepted().map_values(event) + data =~= before.accepted().map_values(event));
    } else {
        let (middle, out) = choose|middle: BTreeEventSorter<T, I, F>, out: ()|
            #[trigger] BTreeEventSorter::<T, I, F>::accepts(middle, data.last(), after, out)
                && accepts_all(before, data.drop_last(), middle);
        lemma_btree_event_sorter_logs_run(before, data.drop_last(), middle);
        let id = choose|id: I|
            #[trigger] middle.id_function().ensures((&data.last(),), id) && after.accepted()
                == middle.accepted().push((id, data.last())) && (obeys_cmp::<I>()
                ==> after.streams() == add_to_stream(middle.streams(), id, data.last()));
        assert(after.accepted().map_values(event) =~= middle.accepted().map_values(event).push(
            data.last(),
        ));
        assert(before.accepted().map_values(event) + data =~= (before.accepted().map_values(event)
            + data.drop_last()).push(data.last()));
    }
}

impl<T, I: Ord, F: Fn(&T) -> I> From<BTreeEventSorter<T, I, F>> for BTreeMap<I, Vec<T>> {
    /// The map of the sorter.
    fn from(sorter: BTreeEventSorter<T, I, F>) -> (map: Self) {
        sorter.events
    }
}

impl<T, I: Ord, F: Fn(&T) -> I> vstd::std_specs::convert::FromSpecImpl<BTreeEventSorter<T, I, F>> for BTreeMap<I, Vec<T>> {
    open spec fn obeys_from_spec() -> bool {
        true
    }

    open spec fn from_spec(sorter: BTreeEventSorter<T, I, F>) -> Self {
        sorter.map()
    }
}

impl<T, I: Ord, F: Fn(&T) -> I> core::ops::Deref for BTreeEventSorter<T, I, F> {
    type Target = BTreeMap<I, Vec<T>>;

    fn deref(&self) -> (map: &BTreeMap<I, Vec<T>>)
        ensures
            *map == self.map(),
    {
        &self.events
    }
}

impl<T, I: Ord, F: Fn(&T) -> I> EventAccepter for BTreeEventSorter<T, I, F> {
    type Data = T;

    type Output = ();

    open spec fn accepts(before: Self, data: T, after: Self, out: ()) -> bool {
        &&& after.id_function() == before.id_function()
        &&& exists|id: I|
            #[trigger] before.id_function().ensures((&data,), id) && after.accepted()
                == before.accepted().push((id, data)) && (obeys_cmp::<I>() ==> after.streams()
                == add_to_stream(before.streams(), id, data))
        &&& before.well_formed() ==> after.well_formed()
    }

    /// Computes the id of the event and appends the event to the stream of that id.
    fn accept(&mut self, data: T) {
        let id = self.id_function.call(&data);
        let ghost entry = (id, data);
        let ghost before = *self;
        match self.events.remove(&id) {
            Some(stream) => {
                let mut stream = stream;
                stream.push(data);
                self.events.insert(id, stream);
            },
            None => {
                let mut stream = Vec::with_capacity(1);
                stream.push(data);
                self.events.insert(id, stream);
            },
        }
        self.count = self.count.saturating_add(1);
        self.log = Ghost(self.log@.push(entry));
        proof {
            if obeys_cmp::<I>() {
                assert(self.streams() =~= add_to_stream(before.streams(), entry.0, entry.1));
                assert(self.log@.drop_last() =~= before.log@);
            }
            assert(before.id_function().ensures((&entry.1,), entry.0));
        }
    }
}

/// In a well-formed sorter whose ids obey the ordering laws, the stream of each id holds
/// exactly the accepted events of that id, in arrival order; so no stream is empty.
pub proof fn lemma_btree_event_sorter_sorts_by_id<T, I: Ord, F: Fn(&T) -> I>(
    sorter: BTreeEventSorter<T, I, F>,
    id: I,
)
    requires
        sorter.well_formed(),
        obeys_cmp::<I>(),
    ensures
        sorter.streams().contains_key(id) <==> events_with_id(sorter.accepted(), id).len() > 0,
        sorter.streams().contains_key(id) ==> sorter.streams()[id] == events_with_id(
            sorter.accepted(),
            id,
        ),
{
    lemma_streams_of_sorts_by_id(sorter.accepted(), id);
}

/// In a well-formed sorter whose ids obey the ordering laws, there is one stream for each
/// different id among the accepted events, and the streams together hold every accepted event;
/// so there are no more streams than events.
pub proof fn lemma_btree_event_sorter_counts<T, I: Ord, F: Fn(&T) -> I>(
    sorter: BTreeEventSorter<T, I, F>,
)
    requires
        sorter.well_formed(),
        obeys_cmp::<I>(),
    ensures
        sorter.streams().dom() == ids_of(sorter.accepted()),
        total_len(sorter.streams()) == sorter.accepted().len(),
        sorter.streams().dom().len() <= sorter.accepted().len(),
{
    lemma_streams_of_counts(sorter.accepted());
}

} // verus!
