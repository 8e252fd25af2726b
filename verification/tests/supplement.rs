use channellib::supplement::{self, EventAccepter, IntoSupplementer, SendSupplementer};
use std::collections::{BTreeMap, BTreeSet, HashSet, VecDeque};
use std::ops::Deref;

/// A `Vec` accumulates the sent items, in order.
#[test]
fn receive_vec() {
    let (producer, consumer) = supplement::channel(Vec::with_capacity(3));
    producer.send(1).unwrap();
    producer.send(2).unwrap();
    producer.send(3).unwrap();
    drop(producer);
    let results = consumer.blocking_close();
    assert_eq!(results.as_slice(), &[1, 2, 3]);
}

/// A `VecDeque` accumulates the sent items, in order.
#[test]
fn receive_vec_deque() {
    let (producer, consumer) = supplement::channel(VecDeque::new());
    producer.send(1).unwrap();
    producer.send(2).unwrap();
    producer.send(3).unwrap();
    drop(producer);
    let results = consumer.blocking_close().into_iter().collect::<Vec<_>>();
    assert_eq!(results.as_slice(), &[1, 2, 3]);
}

/// A `HashSet` accumulates the distinct sent items.
#[test]
fn receive_hash_set() {
    let (producer, consumer) = supplement::channel(HashSet::new());
    producer.send(1).unwrap();
    producer.send(1).unwrap();
    producer.send(1).unwrap();
    drop(producer);
    let results = consumer.blocking_close().into_iter().collect::<Vec<_>>();
    assert_eq!(results.as_slice(), &[1]);
}

/// A `BTreeSet` accumulates the distinct sent items.
#[test]
fn receive_btree_set() {
    let (producer, consumer) = supplement::channel(BTreeSet::new());
    producer.send(1).unwrap();
    producer.send(2).unwrap();
    producer.send(1).unwrap();
    drop(producer);
    let results = consumer.blocking_close().into_iter().collect::<Vec<_>>();
    assert_eq!(results.as_slice(), &[1, 2]);
}

/// A list accepter accumulates the sent items, in order.
#[test]
fn receive_linked_list() {
    let (producer, consumer) = supplement::channel(supplement::ListAccepter::new());
    producer.send(1).unwrap();
    producer.send(2).unwrap();
    producer.send(1).unwrap();
    drop(producer);
    let results = consumer.blocking_close().into_inner().into_iter().collect::<Vec<_>>();
    assert_eq!(results.as_slice(), &[1, 2, 1]);
}

/// Sends a byte as its decimal text.
struct DecimalSendSupplementer;

impl SendSupplementer for DecimalSendSupplementer {
    type From = u8;
    type To = String;
    fn enrich(&self, data: Self::From) -> Self::To {
        data.to_string()
    }
    fn unenrich(&self, data: Self::To) -> Self::From {
        data.parse().unwrap()
    }
}

/// A custom `SendSupplementer` turned into a supplementer by `into_supplementer()`.
#[test]
fn custom_send_supplementer() {
    let (producer, mut consumer) = supplement::channel(DecimalSendSupplementer.into_supplementer());
    producer.send(0).unwrap();
    producer.send(1).unwrap();
    drop(producer);
    assert_eq!(consumer.recv().unwrap().as_str(), "0");
    assert_eq!(consumer.recv().unwrap().as_str(), "1");
    assert_eq!(consumer.recv(), Err(supplement::RecvError));
}

/// Appends the decimal text of each byte it accepts.
struct TextEventAccepter(String);

impl Deref for TextEventAccepter {
    type Target = String;
    fn deref(&self) -> &Self::Target {
        &self.0
    }
}

impl EventAccepter for TextEventAccepter {
    type Data = u8;
    type Output = String;
    fn accept(&mut self, data: Self::Data) -> Self::Output {
        self.0.push_str(data.to_string().as_str());
        self.0.clone()
    }
}

/// A custom `EventAccepter` passed directly to `channel()`.
#[test]
fn custom_event_accepter() {
    let (producer, mut consumer) = supplement::channel(TextEventAccepter(String::new()));
    producer.send(10).unwrap();
    producer.send(255).unwrap();
    drop(producer);
    assert_eq!(consumer.as_str(), "");
    assert_eq!(consumer.recv(), Ok(String::from("10")));
    assert_eq!(consumer.recv(), Ok(String::from("10255")));
    assert_eq!(consumer.recv(), Err(supplement::RecvError));
}

/// Sends each byte twice.
struct DoublingSendSupplementer;

impl SendSupplementer for DoublingSendSupplementer {
    type From = u8;
    type To = (u8, u8);
    fn enrich(&self, data: Self::From) -> Self::To {
        (data, data)
    }
    fn unenrich(&self, data: Self::To) -> Self::From {
        data.0
    }
}

/// Keeps a running total of both halves of each pair.
struct SummingEventAccepter(u8);

impl EventAccepter for SummingEventAccepter {
    type Data = (u8, u8);
    type Output = u8;
    fn accept(&mut self, data: Self::Data) -> Self::Output {
        self.0 += data.0 + data.1;
        self.0
    }
}

/// Splits into a doubling supplementer and a summing accepter.
struct SummingIntoSupplementer;

impl IntoSupplementer for SummingIntoSupplementer {
    type Data = (u8, u8);
    type EventAcccepter = SummingEventAccepter;
    type SendSupplementer = DoublingSendSupplementer;
    fn into_supplementer(self) -> (Self::SendSupplementer, Self::EventAcccepter) {
        (DoublingSendSupplementer, SummingEventAccepter(0))
    }
}

/// A custom `IntoSupplementer` passed directly to `channel()`.
#[test]
fn custom_into_supplementer() {
    let (producer, mut consumer) = supplement::channel(SummingIntoSupplementer);
    producer.send(1).unwrap();
    producer.send(2).unwrap();
    producer.send(3).unwrap();
    drop(producer);
    assert_eq!(consumer.recv(), Ok(2));
    assert_eq!(consumer.recv(), Ok(6));
    assert_eq!(consumer.recv(), Ok(12));
    assert_eq!(consumer.recv(), Err(supplement::RecvError));
}

/// A tuple of a custom supplementer and a custom accepter passed directly to `channel()`.
#[test]
fn custom_send_supplementer_and_custom_event_acceptance_tuple() {
    let (producer, mut consumer) =
        supplement::channel((DoublingSendSupplementer, SummingEventAccepter(0)));
    producer.send(1).unwrap();
    producer.send(2).unwrap();
    producer.send(3).unwrap();
    drop(producer);
    assert_eq!(consumer.recv(), Ok(2));
    assert_eq!(consumer.recv(), Ok(6));
    assert_eq!(consumer.recv(), Ok(12));
    assert_eq!(consumer.recv(), Err(supplement::RecvError));
}

/// The `HashEventSorter` buckets strings by their first character.
#[test]
fn hash_event_sorter() {
    let sorter = supplement::HashEventSorter::new(|s: &&str| {
        let mut chars = s.chars();
        chars.next().unwrap()
    });
    let (producer, consumer) = supplement::channel(sorter);
    producer.send("A black cat").unwrap();
    producer.send("The white dog").unwrap();
    producer.send("At last I have found my home").unwrap();
    drop(producer);
    let sorter = consumer.blocking_close();
    assert_eq!(sorter.num_streams(), 2);
    assert_eq!(sorter.num_events(), 3);
    assert_eq!(
        sorter.get(&'A').unwrap().as_slice(),
        &["A black cat", "At last I have found my home"]
    );
    assert_eq!(sorter.get(&'T').unwrap().as_slice(), &["The white dog"]);
}

/// The `BTreeEventSorter` buckets strings by their first character, in order of the character.
#[test]
fn btree_event_sorter() {
    let sorter = supplement::BTreeEventSorter::new(|s: &&str| {
        let mut chars = s.chars();
        chars.next().unwrap()
    });
    let (producer, consumer) = supplement::channel(sorter);
    producer.send("A black cat").unwrap();
    producer.send("The white dog").unwrap();
    producer.send("At last I have found my home").unwrap();
    drop(producer);
    let sorter = consumer.blocking_close();
    assert_eq!(sorter.num_streams(), 2);
    assert_eq!(sorter.num_events(), 3);
    let btree: BTreeMap<char, Vec<&str>> = sorter.into();
    let mut iter = btree.into_iter();
    let (first_starting_letter, starting_with_first_letter) = iter.next().unwrap();
    assert_eq!(first_starting_letter, 'A');
    assert_eq!(
        starting_with_first_letter.as_slice(),
        &["A black cat", "At last I have found my home"]
    );
    let (second_starting_letter, starting_with_second_letter) = iter.next().unwrap();
    assert_eq!(second_starting_letter, 'T');
    assert_eq!(starting_with_second_letter.as_slice(), &["The white dog"]);
    assert!(iter.next().is_none());
}

/// The `PriorityQueue` pops the highest priority data first.
#[test]
fn priority_queue() {
    let (producer, mut consumer) =
        supplement::channel(supplement::PriorityQueue::new(|s: &&str| s.len()));
    producer.send("12").unwrap();
    producer.send("345").unwrap();
    producer.send("6").unwrap();
    drop(producer);
    assert_eq!(consumer.recv_buffer(), false);
    assert_eq!(consumer.accepter_mut().pop().unwrap().data, "345");
    assert_eq!(consumer.accepter_mut().pop().unwrap().data, "12");
    assert_eq!(consumer.accepter_mut().pop().unwrap().data, "6");
    assert!(consumer.accepter_mut().pop().is_none());
}

/// The supplementers of the module round-trip their data.
#[test]
fn provided_supplementers_round_trip() {
    let null = supplement::NullSendSupplementer::new();
    assert_eq!(null.enrich(1), 1);
    assert_eq!(null.unenrich(null.enrich(2)), 2);
    let prepend = supplement::PrependSendSupplementer::new(|x: &i32| x + 1);
    assert_eq!(prepend.enrich(1), (2, 1));
    assert_eq!(prepend.unenrich(prepend.enrich(2)), 2);
}

/// A failed send of a prepending producer hands the very datum back.
#[test]
fn prepending_producer_returns_unsent_datum() {
    let prepend = supplement::PrependSendSupplementer::new(|x: &i32| x * 3);
    let (producer, mut consumer) = supplement::channel(prepend.into_supplementer());
    producer.send(5).unwrap();
    assert_eq!(consumer.recv(), Ok((15, 5)));
    drop(consumer);
    assert_eq!(producer.send(4), Err(supplement::SendError(4)));
}

/// `recv()` and `try_recv()` hand waiting messages to the accepter and then report the state of
/// the producers.
#[test]
fn receive_then_disconnect() {
    let (producer, mut consumer) = supplement::channel(Vec::new());
    assert_eq!(consumer.try_recv(), Err(supplement::TryRecvError::Empty));
    producer.send(1).unwrap();
    let producer_clone = producer.clone();
    producer_clone.send(2).unwrap();
    drop(producer_clone);
    assert_eq!(consumer.recv(), Ok(()));
    assert_eq!(consumer.as_slice(), &[1]);
    assert_eq!(consumer.try_recv(), Ok(()));
    assert_eq!(consumer.as_slice(), &[1, 2]);
    drop(producer);
    assert_eq!(consumer.try_recv(), Err(supplement::TryRecvError::Disconnected));
    assert_eq!(consumer.recv(), Err(supplement::RecvError));
}

/// `close()` handles the waiting messages and later sends fail; `inner()` drops them.
#[test]
fn close_and_inner() {
    let (producer, consumer) = supplement::channel(Vec::new());
    producer.send(1).unwrap();
    producer.send(2).unwrap();
    let result = consumer.close();
    assert_eq!(result, vec![1, 2]);
    assert_eq!(producer.send(3), Err(supplement::SendError(3)));

    let (producer, consumer) = supplement::channel(Vec::<i32>::new());
    producer.send(1).unwrap();
    assert!(consumer.inner().is_empty());
    assert_eq!(producer.send(2), Err(supplement::SendError(2)));
}

/// A `NullEventAccepter` hands each message back unchanged.
#[test]
fn null_event_accepter_echoes() {
    let (producer, mut consumer) = supplement::channel(supplement::NullEventAccepter::new());
    producer.send('x').unwrap();
    assert_eq!(consumer.recv(), Ok('x'));
    assert_eq!(consumer.try_recv(), Err(supplement::TryRecvError::Empty));
}

/// `recv_buffer_and_process()` processes the highest priority item after each buffer read.
#[test]
fn priority_queue_processing_loop() {
    let priority_queue = supplement::PriorityQueue::new(|x: &usize| *x);
    let (producer, mut consumer) = supplement::channel(priority_queue);
    producer.send(1).unwrap();
    producer.send(2).unwrap();
    drop(producer);
    let (mut total, mut index) = (0, 0);
    loop {
        match consumer.recv_buffer_and_process(|element| element) {
            (Some(element), _) => {
                total += element * 10usize.pow(index);
                index += 1;
            }
            (None, true) => continue,
            (None, false) => break,
        }
    }
    assert_eq!(total, 12);
    assert_eq!(index, 2);
}

/// The priority queue keeps its items in ascending priority order.
#[test]
fn priority_queue_order_and_peek() {
    let mut queue = supplement::PriorityQueue::new(|x: &i64| (x - 10).abs());
    assert!(queue.is_empty());
    assert!(queue.peek().is_none());
    queue.prioritize(0);
    queue.prioritize(10);
    queue.prioritize(5);
    assert_eq!(queue.len(), 3);
    assert_eq!(queue.peek().unwrap().data, 0);
    let sorted = queue.into_sorted_vec();
    let data: Vec<i64> = sorted.iter().map(|item| item.data).collect();
    let priorities: Vec<i64> = sorted.iter().map(|item| item.priority).collect();
    assert_eq!(data, vec![10, 5, 0]);
    assert_eq!(priorities, vec![0, 5, 10]);
}

/// A sorter made with an explicit hasher counts its streams and events.
#[test]
fn hash_event_sorter_with_hasher() {
    let sorter = supplement::HashEventSorter::with_hasher(
        |data: &i8| data % 2,
        std::collections::hash_map::RandomState::new(),
    );
    let (producer, consumer) = supplement::channel(sorter);
    producer.send(0).unwrap();
    producer.send(1).unwrap();
    producer.send(2).unwrap();
    drop(producer);
    let sorter = consumer.blocking_close();
    assert_eq!(sorter.num_streams(), 2);
    assert_eq!(sorter.num_events(), 3);
    assert_eq!(sorter.get(&0).unwrap().as_slice(), &[0, 2]);
    let map = sorter.inner();
    assert_eq!(map.get(&1).unwrap().as_slice(), &[1]);
}

/// Priority queue items compare by priority alone.
#[test]
fn priority_queue_items_compare_by_priority() {
    let low = supplement::PriorityQueueItem { data: "a", priority: 1 };
    let same = supplement::PriorityQueueItem { data: "b", priority: 1 };
    let high = supplement::PriorityQueueItem { data: "a", priority: 2 };
    assert!(low == same);
    assert!(low != high);
    assert!(low < high);
    assert_eq!(low.partial_cmp(&same), Some(std::cmp::Ordering::Equal));
}

/// Unchanging supplementers are all equal, and copies of each other.
#[test]
fn null_send_supplementers_are_alike() {
    let first = supplement::NullSendSupplementer::<u8>::new();
    let second = first;
    assert_eq!(first, second);
    assert_eq!(first.enrich(9), 9);
}

/// Set accepters report whether each message was new.
#[test]
fn set_accepters_report_new_messages() {
    let (producer, mut consumer) = supplement::channel(HashSet::new());
    producer.send(4).unwrap();
    producer.send(4).unwrap();
    assert_eq!(consumer.recv(), Ok(true));
    assert_eq!(consumer.recv(), Ok(false));
    let mut set = BTreeSet::new();
    assert!(set.accept('b'));
    assert!(set.accept('a'));
    assert!(!set.accept('b'));
    assert_eq!(set.into_iter().collect::<String>(), "ab");
}

/// Accepting directly into a sorter appends to the stream of the computed id.
#[test]
fn sorter_accepts_directly() {
    let mut sorter = supplement::BTreeEventSorter::new(|x: &u32| x % 3);
    for value in [3, 4, 6, 7, 9] {
        sorter.accept(value);
    }
    assert_eq!(sorter.num_streams(), 2);
    assert_eq!(sorter.num_events(), 5);
    assert_eq!(sorter.get(&0).unwrap().as_slice(), &[3, 6, 9]);
    assert_eq!(sorter.get(&1).unwrap().as_slice(), &[4, 7]);
    assert!(sorter.get(&2).is_none());
}

/// Items of equal priority are all kept, and the queue pops by priority.
#[test]
fn priority_queue_keeps_equal_priorities() {
    let mut queue = supplement::PriorityQueue::new(|x: &i32| x / 10);
    for value in [11, 25, 12, 3, 27] {
        queue.accept(value);
    }
    assert_eq!(queue.len(), 5);
    let first = queue.pop().unwrap();
    let second = queue.pop().unwrap();
    assert_eq!(first.priority, 2);
    assert_eq!(second.priority, 2);
    let mut top_two = vec![first.data, second.data];
    top_two.sort();
    assert_eq!(top_two, vec![25, 27]);
    assert_eq!(queue.pop().unwrap().priority, 1);
    assert_eq!(queue.pop().unwrap().priority, 1);
    assert_eq!(queue.pop().unwrap().data, 3);
    assert!(queue.pop().is_none());
}

/// A read's outcome is handed to the accepter, and an error is passed on unchanged.
#[test]
fn accepting_read_outcomes() {
    let mut accepter: Vec<i32> = Vec::new();
    assert_eq!(supplement::accept_outcome(&mut accepter, Ok::<i32, supplement::TryRecvError>(1)), Ok(()));
    assert_eq!(
        supplement::accept_outcome(&mut accepter, Err(supplement::TryRecvError::Empty)),
        Err(supplement::TryRecvError::Empty)
    );
    assert_eq!(
        supplement::accept_outcome(&mut accepter, Err(supplement::TryRecvError::Disconnected)),
        Err(supplement::TryRecvError::Disconnected)
    );
    assert_eq!(accepter, vec![1]);
    let mut set = HashSet::new();
    assert_eq!(supplement::accept_outcome(&mut set, Ok::<u8, supplement::RecvError>(7)), Ok(true));
    assert_eq!(supplement::accept_outcome(&mut set, Ok::<u8, supplement::RecvError>(7)), Ok(false));
}

/// The steps that decide the receiving loops.
#[test]
fn receiving_loop_steps() {
    assert_eq!(supplement::buffer_step(&Ok::<(), supplement::TryRecvError>(())), None);
    assert_eq!(
        supplement::buffer_step::<()>(&Err(supplement::TryRecvError::Empty)),
        Some(true)
    );
    assert_eq!(
        supplement::buffer_step::<()>(&Err(supplement::TryRecvError::Disconnected)),
        Some(false)
    );
    assert!(supplement::keeps_reading(&Ok::<(), supplement::RecvError>(())));
    assert!(!supplement::keeps_reading(&Err::<(), supplement::RecvError>(supplement::RecvError)));
}

/// Processing the top of the queue hands back the connection state it was given.
#[test]
fn processing_the_top_item() {
    let (producer, mut consumer) =
        supplement::channel(supplement::PriorityQueue::new(|x: &i64| (x - 10).abs()));
    producer.send(0).unwrap();
    producer.send(5).unwrap();
    drop(producer);
    assert_eq!(consumer.recv_buffer(), false);
    assert_eq!(consumer.process_top(|x| x * 2, false), (Some(0), false));
    assert_eq!(consumer.len(), 1);
    assert_eq!(consumer.process_top(|x| x * 2, true), (Some(10), true));
    assert_eq!(consumer.process_top(|x| x * 2, false), (None, false));
}

/// The streams of a sorter hold every accepted event between them, one stream per different id.
#[test]
fn sorter_counts_streams_and_events() {
    let mut sorter = supplement::HashEventSorter::new(|x: &u32| x % 4);
    assert_eq!(sorter.num_streams(), 0);
    assert_eq!(sorter.num_events(), 0);
    for value in [8, 1, 5, 12, 4, 9, 2] {
        sorter.accept(value);
    }
    assert_eq!(sorter.num_streams(), 3);
    assert_eq!(sorter.num_events(), 7);
    let held: usize = sorter.values().map(|stream| stream.len()).sum();
    assert_eq!(held, sorter.num_events());
    assert!(sorter.num_streams() <= sorter.num_events());
}

/// A list accepter appends each message at the back and gives them up oldest first.
#[test]
fn list_accepter_keeps_arrival_order() {
    let mut list = supplement::ListAccepter::new();
    assert_eq!(list.len(), 0);
    for value in ['c', 'a', 'b', 'a'] {
        list.accept(value);
    }
    assert_eq!(list.len(), 4);
    assert_eq!(list.into_inner().into_iter().collect::<String>(), "caba");
}

/// The item processed after a buffer read has the highest priority of all the items held.
#[test]
fn processed_item_has_top_priority() {
    let (producer, mut consumer) =
        supplement::channel(supplement::PriorityQueue::new(|x: &u8| *x));
    for value in [4, 9, 1, 7] {
        producer.send(value).unwrap();
    }
    let (processed, open) = consumer.recv_buffer_and_process(|x| x);
    assert_eq!(processed, Some(9));
    assert!(open);
    assert!(consumer.peek().map_or(true, |item| item.priority <= 9));
    assert_eq!(consumer.process_top(|x| x, open), (Some(7), true));
}
