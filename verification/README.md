# channellib

Enriched channels for communication between threads, built on the standard library's
`std::sync::mpsc` channels and verified with Verus.

- `src/two_way.rs` — `two_way::channel()`: two symmetric `Communicator`s that both send and
  receive.
- `src/acknowledge.rs` — `acknowledge::channel()` / `custom_channel()`: a `Speaker` sends
  payloads to a `Listener`, which answers each one with an acknowledgement computed by a
  function.
- `src/supplement.rs` and `src/supplement/` — `supplement::channel()`: producers enrich data
  with a `SendSupplementer`, and the consumer hands every message to an `EventAccepter`
  (collections, `ListAccepter`, `HashEventSorter`, `BTreeEventSorter`, `PriorityQueue`, ...).
- `src/pipe.rs` and `src/debug_text.rs` — the trusted boundary: the standard library channel
  calls, with the contracts the rest of the crate relies on, and the formatter calls behind the
  error types' `Debug` texts.

What a receive returns depends on other threads, so the contracts of the channel operations
state what holds of every outcome; the event accepters, supplementers, sorters and the priority
queue have exact contracts, and the `lemma_*` proof functions state the laws that hold across
calls (messages kept in arrival order, round-tripping supplementers, streams sorted by id with
no empty stream and one stream per id, no event lost by the priority queue, ...).

`app/` adds what the verifier cannot take: `Display`/`Error` copies of the error types and
`Iterator` adaptors for the drains.
