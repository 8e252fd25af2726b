use channellib::two_way;

/// Routine sends and receives, including sends while the queue in either direction is non-empty.
#[test]
fn send_and_receive() {
    let (first, second) = two_way::channel();
    first.send(100).unwrap();
    second.send("abc").unwrap();
    assert_eq!(second.recv().unwrap(), 100);
    second.send("def").unwrap();
    assert_eq!(first.try_recv().unwrap(), "abc");
    assert_eq!(first.recv().unwrap(), "def");
}

/// Sending after the other communicator has been dropped hands the data back in a `SendError`.
#[test]
fn send_when_other_dropped() {
    let (first, second) = two_way::channel::<i32, i32>();
    drop(second);
    assert_eq!(first.send(100).unwrap_err(), two_way::SendError(100));
}

/// Receiving after the other communicator has been dropped first drains what it sent, then fails.
#[test]
fn receive_when_other_dropped() {
    let (first, second) = two_way::channel::<i32, i32>();
    second.send(1).unwrap();
    drop(second);
    assert_eq!(first.recv().unwrap(), 1);
    assert_eq!(first.recv().unwrap_err(), two_way::RecvError);
    assert_eq!(first.try_recv().unwrap_err(), two_way::TryRecvError::Disconnected);
}

/// `try_recv()` on an empty queue fails with `Empty`.
#[test]
fn try_receive_empty() {
    let (first, _second) = two_way::channel::<i32, i32>();
    assert_eq!(first.try_recv().unwrap_err(), two_way::TryRecvError::Empty);
}

/// `drain()` listens until the queue is empty and the other side is gone.
#[test]
fn drain_works() {
    let (first, second) = two_way::channel::<i32, i32>();
    for value in 0..5 {
        first.send(value).unwrap();
    }
    drop(first);
    let received = second.drain().collect_vec();
    assert_eq!(received.as_slice(), &[0, 1, 2, 3, 4]);
}

/// Messages sent after `drain()` are still collected by the drain.
#[test]
fn messages_sent_after_drain() {
    let (first, second) = two_way::channel::<i32, i32>();
    for value in 0..3 {
        first.send(value).unwrap();
    }
    let mut results = Vec::with_capacity(6);
    let mut iter = second.drain();
    for _ in 0..3 {
        results.push(iter.next().unwrap());
    }
    for value in 3..6 {
        first.send(value).unwrap();
    }
    drop(first);
    results.extend(iter.collect_vec());
    assert_eq!(results.as_slice(), &[0, 1, 2, 3, 4, 5]);
}

/// The readme's example: both directions carry different types and a drained queue keeps order.
#[test]
fn two_way_readme_example() {
    let (first, second) = two_way::channel();
    assert_eq!(first.try_recv().unwrap_err(), two_way::TryRecvError::Empty);
    first.send(123).unwrap();
    second.send("abc").unwrap();
    assert_eq!(first.recv().unwrap(), "abc");
    drop(first);
    assert_eq!(second.try_recv().unwrap(), 123);
    assert_eq!(second.try_recv().unwrap_err(), two_way::TryRecvError::Disconnected);
}

/// A drained communicator can no longer be sent to.
#[test]
fn drained_side_refuses_sends() {
    let (first, second) = two_way::channel::<i32, &str>();
    let mut drain = second.drain();
    assert_eq!(first.send(7), Ok(()));
    assert_eq!(drain.next(), Some(7));
    drop(first);
    assert_eq!(drain.next(), None);
}

/// Sending to a dropped side fails and receiving from one fails, in both directions.
#[test]
fn both_directions_report_disconnection() {
    let (first, second) = two_way::channel::<u8, char>();
    drop(first);
    assert_eq!(second.send('c'), Err(two_way::SendError('c')));
    assert_eq!(second.recv(), Err(two_way::RecvError));
    assert!(second.drain().collect_vec().is_empty());
}

/// What a drain yields for each outcome of a read, and how collecting it proceeds.
#[test]
fn drain_steps() {
    assert_eq!(two_way::received_message(Ok(3)), Some(3));
    assert_eq!(two_way::received_message::<i32>(Err(two_way::RecvError)), None);
    let mut received = vec![1];
    assert!(two_way::absorb_message(&mut received, Some(2)));
    assert!(!two_way::absorb_message(&mut received, None));
    assert_eq!(received, vec![1, 2]);
}

/// The debug texts of the errors match those of the standard library channel's errors.
#[test]
fn two_way_error_debug_texts() {
    assert_eq!(format!("{:?}", two_way::SendError(5)), "SendError { .. }");
    assert_eq!(
        format!("{:?}", two_way::SendError(5)),
        format!("{:?}", std::sync::mpsc::SendError(5))
    );
    assert_eq!(format!("{:?}", two_way::RecvError), "RecvError");
    assert_eq!(format!("{:?}", two_way::TryRecvError::Empty), "Empty");
    assert_eq!(format!("{:?}", two_way::TryRecvError::Disconnected), "Disconnected");
}
