//! A priority queue that orders the events it accepts by a priority computed from each one.
use super::{Computation, Consumer, EventAccepter, accepts_all};
use crate::pipe::{disconnection_reported, emptiness_reported};
use std::cmp::Ordering;
use vstd::laws_cmp::{obeys_cmp, obeys_cmp_partial_ord, obeys_partial_cmp_spec_properties};
use vstd::multiset::Multiset;
use vstd::prelude::*;
use vstd::std_specs::cmp::{PartialEqSpec, PartialOrdSpec};

verus! {

/// An item of a [`PriorityQueue`]: an event with the priority computed from it (higher means
/// more important).
#[derive(Clone, Copy, Debug)]
pub struct PriorityQueueItem<T, P> {
    /// the event
    pub data: T,
    /// the priority of the event
    pub priority: P,
}

impl<T, P: PartialEq> PartialEq for PriorityQueueItem<T, P> {
    /// Items are equal when their priorities are.
    fn eq(&self, other: &Self) -> (equal: bool) {
        self.priority == other.priority
    }
}

impl<T, P: PartialEq> vstd::std_specs::cmp::PartialEqSpecImpl for PriorityQueueItem<T, P> {
    open spec fn obeys_eq_spec() -> bool {
        P::obeys_eq_spec()
    }

    open spec fn eq_spec(&self, other: &Self) -> bool {
        self.priority.eq_spec(&other.priority)
    }
}

impl<T, P: Eq> Eq for PriorityQueueItem<T, P> {

}

impl<T, P: PartialOrd> PartialOrd for PriorityQueueItem<T, P> {
    /// Items compare as their priorities do.
    fn partial_cmp(&self, other: &Self) -> (ordering: Option<Ordering>) {
        self.priority.partial_cmp(&other.priority)
    }
}

impl<T, P: PartialOrd> vstd::std_specs::cmp::PartialOrdSpecImpl for PriorityQueueItem<T, P> {
    open spec fn obeys_partial_cmp_spec() -> bool {
        P::obeys_partial_cmp_spec()
    }

    open spec fn partial_cmp_spec(&self, other: &Self) -> Option<Ordering> {
        self.priority.partial_cmp_spec(&other.priority)
    }
}

/// Priority `high` ranks strictly above priority `low`.
pub open spec fn ranks_above<P: PartialOrd>(high: P, low: P) -> bool {
    high.partial_cmp_spec(&low) == Some(Ordering::Greater)
}

/// No item ranks above an item that comes after it: the items are in ascending priority
/// order, and the last one has the top priority.
pub open spec fn in_priority_order<T, P: PartialOrd>(items: Seq<PriorityQueueItem<T, P>>) -> bool {
    forall|i: int, j: int|
        0 <= i < j < items.len() ==> !ranks_above(
            #[trigger] items[i].priority,
            #[trigger] items[j].priority,
        )
}

/// For a priority type that obeys the ordering laws, ranking above is a strict order.
pub proof fn lemma_ranks_above_is_strict<P: Ord>()
    requires
        obeys_cmp::<P>(),
    ensures
        P::obeys_partial_cmp_spec(),
        forall|x: P, y: P| ranks_above(x, y) ==> !ranks_above(y, x),
        forall|x: P, y: P, z: P|
            ranks_above(x, y) && #[trigger] ranks_above(y, z) ==> #[trigger] ranks_above(x, z),
{
    reveal(obeys_cmp_partial_ord);
    reveal(obeys_partial_cmp_spec_properties);
    assert forall|x: P, y: P| ranks_above(x, y) implies !ranks_above(y, x) by {
        assert(y.partial_cmp_spec(&x) == Some(Ordering::Less) <==> x.partial_cmp_spec(&y) == Some(
            Ordering::Greater,
        ));
    }
}

/// A priority queue: [`EventAccepter`] that keeps the events it accepts in ascending order of
/// the priority its function computes from each, so that [`PriorityQueue::pop()`] returns an
/// event of the highest priority.
#[verifier::reject_recursive_types(T)]
#[verifier::reject_recursive_types(P)]
pub struct PriorityQueue<T, P: Ord, F: Fn(&T) -> P> {
    /// the items, in ascending priority order
    queue: Vec<PriorityQueueItem<T, P>>,
    /// computes the priority of an event
    priority: Computation<F, T, P>,
}

/// `after` is `before` with `data`, given a priority that `function` computed from it, inserted
/// after every item that does not rank above that priority and before the first one that does.
pub open spec fn prioritized<T, P: Ord, F: Fn(&T) -> P>(
    function: F,
    before: Seq<PriorityQueueItem<T, P>>,
    data: T,
    after: Seq<PriorityQueueItem<T, P>>,
) -> bool {
    exists|priority: P, index: int|
        #![trigger before.insert(index, PriorityQueueItem { data, priority })]
        {
            &&& function.ensures((&data,), priority)
            &&& 0 <= index <= before.len()
            &&& after == before.insert(index, PriorityQueueItem { data, priority })
            &&& obeys_cmp::<P>() ==> {
                &&& forall|k: int| 0 <= k < index ==> !ranks_above(before[k].priority, priority)
                &&& index < before.len() ==> ranks_above(before[index].priority, priority)
            }
        }
}

impl<T, P: Ord, F: Fn(&T) -> P> PriorityQueue<T, P, F> {
    /// The items stay in ascending priority order when priorities obey the ordering laws.
    #[verifier::type_invariant]
    spec fn ordered(self) -> bool {
        obeys_cmp::<P>() ==> in_priority_order(self.queue@)
    }

    /// The items, in ascending priority order.
    pub closed spec fn items(&self) -> Seq<PriorityQueueItem<T, P>> {
        self.queue@
    }

    /// The function that computes priorities.
    pub closed spec fn priority_function(&self) -> F {
        self.priority.function()
    }

    /// Creates an empty priority queue that computes priorities with `priority`.
    pub fn new(priority: F) -> (queue: Self)
        requires
            forall|data: &T| priority.requires((data,)),
        ensures
            queue.items() == Seq::<PriorityQueueItem<T, P>>::empty(),
            queue.priority_function() == priority,
    {
        PriorityQueue { queue: Vec::new(), priority: Computation::new(priority) }
    }

    /// Computes the priority of `data` and inserts it after the items that do not rank above
    /// it and before those that do.
    pub fn prioritize(&mut self, data: T)
        ensures
            final(self).priority_function() == old(self).priority_function(),
            prioritized(old(self).priority_function(), old(self).items(), data, final(self).items()),
    {
        proof {
            use_type_invariant(&*self);
        }
        let priority = self.priority.call(&data);
        let ghost items = self.queue@;
        let mut index: usize = 0;
        while index < self.queue.len()
            invariant
                self.queue@ == items,
                index <= items.len(),
                obeys_cmp::<P>() ==> forall|k: int|
                    0 <= k < index ==> !ranks_above(items[k].priority, priority),
            ensures
                self.queue@ == items,
                index <= items.len(),
                obeys_cmp::<P>() ==> forall|k: int|
                    0 <= k < index ==> !ranks_above(items[k].priority, priority),
                obeys_cmp::<P>() ==> forall|k: int|
                    k == index && k < items.len() ==> ranks_above(items[k].priority, priority),
            decreases items.len() - index,
        {
            proof {
                if obeys_cmp::<P>() {
                    lemma_ranks_above_is_strict::<P>();
                }
            }
            if self.queue[index].priority > priority {
                break;
            }
            index = index + 1;
        }
        proof {
            if obeys_cmp::<P>() {
                lemma_ranks_above_is_strict::<P>();
            }
        }
        let item = PriorityQueueItem { data, priority };
        let ghost inserted = item;
        let mut queue = Vec::new();
        std::mem::swap(&mut queue, &mut self.queue);
        queue.insert(index, item);
        proof {
            if obeys_cmp::<P>() {
                lemma_ranks_above_is_strict::<P>();
                assert forall|i: int, j: int|
                    0 <= i < j < queue@.len() implies !ranks_above(
                    #[trigger] queue@[i].priority,
                    #[trigger] queue@[j].priority,
                ) by {
                    if j < index {
                        assert(queue@[i] == items[i] && queue@[j] == items[j]);
                    } else if j == index {
                        assert(queue@[i] == items[i]);
                    } else if i == index {
                        assert(queue@[j] == items[j - 1]);
                        assert(ranks_above(items[i].priority, inserted.priority));
                        if j - 1 > i {
                            assert(!ranks_above(items[i].priority, items[j - 1].priority));
                        }
                    } else if i < index {
                        assert(queue@[i] == items[i] && queue@[j] == items[j - 1]);
                    } else {
                        assert(queue@[i] == items[i - 1] && queue@[j] == items[j - 1]);
                    }
                }
            }
        }
        self.queue = queue;
        assert(prioritized(old(self).priority_function(), items, inserted.data, self.queue@));
    }

    /// The number of items.
    pub fn len(&self) -> (count: usize)
        ensures
            count == self.items().len(),
    {
        self.queue.len()
    }

    /// Whether there are no items.
    pub fn is_empty(&self) -> (empty: bool)
        ensures
            empty == (self.items().len() == 0),
    {
        self.queue.len() == 0
    }

    /// An item of the highest priority, if there is any.
    pub fn peek(&self) -> (top: Option<&PriorityQueueItem<T, P>>)
        ensures
            self.items().len() == 0 ==> top is None,
            self.items().len() > 0 ==> top == Some(&self.items().last()),
            obeys_cmp::<P>() && top is Some ==> forall|k: int|
                0 <= k < self.items().len() ==> !ranks_above(
                    #[trigger] self.items()[k].priority,
                    top->Some_0.priority,
                ),
    {
        proof {
            use_type_invariant(self);
            if obeys_cmp::<P>() {
                lemma_ranks_above_is_strict::<P>();
            }
        }
        let count = self.queue.len();
        if count == 0 {
            None
        } else {
            Some(&self.queue[count - 1])
        }
    }

    /// Removes and returns an item of the highest priority, if there is any.
    pub fn pop(&mut self) -> (top: Option<PriorityQueueItem<T, P>>)
        ensures
            final(self).priority_function() == old(self).priority_function(),
            old(self).items().len() == 0 ==> top is None && final(self).items()
                == old(self).items(),
            old(self).items().len() > 0 ==> top == Some(old(self).items().last())
                && final(self).items() == old(self).items().drop_last(),
            obeys_cmp::<P>() && top is Some ==> forall|k: int|
                0 <= k < final(self).items().len() ==> !ranks_above(
                    #[trigger] final(self).items()[k].priority,
                    top->Some_0.priority,
                ),
    {
        proof {
            use_type_invariant(&*self);
        }
        let mut queue = Vec::new();
        std::mem::swap(&mut queue, &mut self.queue);
        let top = queue.pop();
        self.queue = queue;
        top
    }

    /// Gives up the queue and returns its items in ascending priority order.
    pub fn into_sorted_vec(self) -> (items: Vec<PriorityQueueItem<T, P>>)
        ensures
            items@ == self.items(),
            obeys_cmp::<P>() ==> in_priority_order(items@),
    {
        proof {
            use_type_invariant(&self);
        }
        self.queue
    }
}

impl<T, P: Ord, F: Fn(&T) -> P> EventAccepter for PriorityQueue<T, P, F> {
    type Data = T;

    type Output = ();

    open spec fn accepts(before: Self, data: T, after: Self, out: ()) -> bool {
        &&& after.priority_function() == before.priority_function()
        &&& prioritized(before.priority_function(), before.items(), data, after.items())
    }

    /// Prioritizes the event.
    fn accept(&mut self, data: T) {
        self.prioritize(data);
    }
}

/// A priority queue loses no event: after a run of accepted events it holds the events it held
/// before and those of the run.
pub proof fn lemma_priority_queue_keeps_every_event<T, P: Ord, F: Fn(&T) -> P>(
    before: PriorityQueue<T, P, F>,
    data: Seq<T>,
    after: PriorityQueue<T, P, F>,
)
    requires
        accepts_all(before, data, after),
    ensures
        after.items().map_values(|item: PriorityQueueItem<T, P>| item.data).to_multiset()
            == before.items().map_values(|item: PriorityQueueItem<T, P>| item.data).to_multiset().add(
            data.to_multiset(),
        ),
    decreases data.len(),
{
    broadcast use vstd::seq_lib::group_to_multiset_ensures;
    broadcast use vstd::multiset::group_multiset_axioms;

    let events = |item: PriorityQueueItem<T, P>| item.data;
    if data.len() == 0 {
        assert(data.to_multiset() =~= Multiset::empty());
        assert(before.items().map_values(events).to_multiset().add(data.to_multiset())
            =~= before.items().map_values(events).to_multiset());
    } else {
        let (middle, out) = choose|middle: PriorityQueue<T, P, F>, out: ()|
            #[trigger] PriorityQueue::<T, P, F>::accepts(middle, data.last(), after, out)
                && accepts_all(before, data.drop_last(), middle);
        lemma_priority_queue_keeps_every_event(before, data.drop_last(), middle);
        let (priority, index) = choose|priority: P, index: int|
            #![trigger middle.items().insert(index, PriorityQueueItem { data: data.last(), priority })]
            {
                &&& middle.priority_function().ensures((&data.last(),), priority)
                &&& 0 <= index <= middle.items().len()
                &&& after.items() == middle.items().insert(
                    index,
                    PriorityQueueItem { data: data.last(), priority },
                )
                &&& obeys_cmp::<P>() ==> {
                    &&& forall|k: int|
                        0 <= k < index ==> !ranks_above(middle.items()[k].priority, priority)
                    &&& index < middle.items().len() ==> ranks_above(
                        middle.items()[index].priority,
                        priority,
                    )
                }
            };
        assert(after.items().map_values(events) =~= middle.items().map_values(events).insert(
            index,
            data.last(),
        ));
        vstd::seq_lib::to_multiset_insert(middle.items().map_values(events), index, data.last());
        assert(data =~= data.drop_last().push(data.last()));
        assert(data.to_multiset() =~= data.drop_last().to_multiset().insert(data.last()));
        assert(after.items().map_values(events).to_multiset() =~= before.items().map_values(
            events,
        ).to_multiset().add(data.to_multiset()));
    }
}

impl<T, P: Ord, F: Fn(&T) -> P> Consumer<PriorityQueue<T, P, F>> {
    /// Removes an item of the highest priority, if there is any, and returns what `process`
    /// makes of its event, together with `open`, the connection state given by the buffer read
    /// that preceded it.
    pub fn process_top<U, G: FnOnce(T) -> U>(&mut self, process: G, open: bool) -> (res: (
        Option<U>,
        bool,
    ))
        requires
            forall|data: T| process.requires((data,)),
        ensures
            res.1 == open,
            final(self).receiving_end() == old(self).receiving_end(),
            final(self).accepter().priority_function() == old(self).accepter().priority_function(),
            old(self).accepter().items().len() == 0 ==> {
                &&& res.0 is None
                &&& final(self).accepter().items() == old(self).accepter().items()
            },
            old(self).accepter().items().len() > 0 ==> {
                &&& final(self).accepter().items() == old(self).accepter().items().drop_last()
                &&& res.0 matches Some(processed) && process.ensures(
                    (old(self).accepter().items().last().data,),
                    processed,
                )
            },
            obeys_cmp::<P>() && old(self).accepter().items().len() > 0 ==> forall|k: int|
                0 <= k < final(self).accepter().items().len() ==> !ranks_above(
                    #[trigger] final(self).accepter().items()[k].priority,
                    old(self).accepter().items().last().priority,
                ),
    {
        let top = self.accepter_mut().pop();
        let processed = match top {
            Some(item) => Some(process(item.data)),
            None => None,
        };
        (processed, open)
    }

    /// Hands every waiting message to the priority queue (see [`Consumer::recv_buffer()`]), then
    /// removes an item of the highest priority, if there is any, and returns what `process`
    /// makes of its event, together with whether some producer is still connected (see
    /// [`Consumer::process_top()`]).
    pub fn recv_buffer_and_process<U, G: FnOnce(T) -> U>(&mut self, process: G) -> (res: (
        Option<U>,
        bool,
    ))
        requires
            forall|data: T| process.requires((data,)),
        ensures
            final(self).receiving_end() == old(self).receiving_end(),
            exists|data: Seq<T>, middle: PriorityQueue<T, P, F>|
                {
                    &&& #[trigger] accepts_all(old(self).accepter(), data, middle)
                    &&& res.1 ==> emptiness_reported(old(self).receiving_end()) || data.len()
                        == u64::MAX
                    &&& !res.1 ==> disconnection_reported(old(self).receiving_end())
                    &&& middle.priority_function() == final(self).accepter().priority_function()
                    &&& if middle.items().len() == 0 {
                        &&& res.0 is None
                        &&& final(self).accepter().items() == middle.items()
                    } else {
                        &&& final(self).accepter().items() == middle.items().drop_last()
                        &&& res.0 matches Some(processed) && process.ensures(
                            (middle.items().last().data,),
                            processed,
                        )
                        &&& obeys_cmp::<P>() ==> forall|k: int|
                            0 <= k < final(self).accepter().items().len() ==> !ranks_above(
                                #[trigger] final(self).accepter().items()[k].priority,
                                middle.items().last().priority,
                            )
                    }
                },
    {
        let open = self.recv_buffer();
        self.process_top(process, open)
    }
}

} // verus!
