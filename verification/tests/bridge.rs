//! Behaviour of the event queue, completion notifier and scancode stream.

use rust_os::event_queue::EventQueue;
use rust_os::keyboard::{Bridge, PushOutcome, ScancodeStream, StreamError};
use rust_os::notifier::Notifier;
use rust_os::Poll;

#[test]
fn queue_is_fifo() {
    let mut q = EventQueue::with_capacity(8);
    assert!(q.push(10));
    assert!(q.push(20));
    assert!(q.push(30));
    assert_eq!(q.pop(), Some(10));
    assert_eq!(q.pop(), Some(20));
    assert_eq!(q.pop(), Some(30));
    assert_eq!(q.pop(), None);
}

#[test]
fn queue_tail_drops_when_full() {
    let mut q = EventQueue::with_capacity(3);
    assert!(q.push(1));
    assert!(q.push(2));
    assert!(q.push(3));
    // the queue is full: the newest byte is the one dropped
    assert!(!q.push(4));
    assert_eq!(q.pop(), Some(1));
    assert_eq!(q.pop(), Some(2));
    assert_eq!(q.pop(), Some(3));
    assert_eq!(q.pop(), None);
}

#[test]
fn notifier_registers_takes_and_signals() {
    let mut n = Notifier::new();
    let mut wake_list: Vec<u64> = Vec::new();

    // a signal with no registered interest is a harmless no-op
    n.signal(&mut wake_list);
    assert!(wake_list.is_empty());

    n.register(7);
    n.register(8); // replaces the previous interest
    n.signal(&mut wake_list);
    assert_eq!(wake_list, vec![8]);

    // the interest was cleared by the signal
    n.signal(&mut wake_list);
    assert_eq!(wake_list, vec![8]);

    n.register(9);
    assert_eq!(n.take(), Some(9));
    assert_eq!(n.take(), None);
}

#[test]
fn add_scancode_before_initialization_drops() {
    let mut bridge = Bridge::new();
    assert_eq!(bridge.add_scancode(42), PushOutcome::DroppedUninitialized);
}

#[test]
fn stream_is_a_singleton() {
    let mut bridge = Bridge::new();
    let first = ScancodeStream::new(&mut bridge);
    assert!(first.is_ok());
    let second = ScancodeStream::new(&mut bridge);
    assert!(matches!(second, Err(StreamError::DoubleInitialization)));
}

#[test]
fn stream_delivers_in_push_order() {
    let mut bridge = Bridge::new();
    let mut stream = ScancodeStream::new(&mut bridge).unwrap();
    for code in [5u8, 6, 7] {
        assert_eq!(bridge.add_scancode(code), PushOutcome::Delivered);
    }
    assert_eq!(stream.poll_next(&mut bridge, 1), Poll::Ready(5));
    assert_eq!(stream.poll_next(&mut bridge, 1), Poll::Ready(6));
    assert_eq!(stream.poll_next(&mut bridge, 1), Poll::Ready(7));
    assert_eq!(stream.poll_next(&mut bridge, 1), Poll::Pending);
}

#[test]
fn full_queue_drops_newest_scancode() {
    let mut bridge = Bridge::new();
    let mut stream = ScancodeStream::new(&mut bridge).unwrap();
    // the queue has 100 slots; the 101st push must be tail-dropped
    for i in 0..100u32 {
        assert_eq!(bridge.add_scancode(i as u8), PushOutcome::Delivered);
    }
    assert_eq!(bridge.add_scancode(200), PushOutcome::DroppedFull);
    // the oldest 100 events are all still retrievable, in order
    for i in 0..100u32 {
        assert_eq!(stream.poll_next(&mut bridge, 1), Poll::Ready(i as u8));
    }
    assert_eq!(stream.poll_next(&mut bridge, 1), Poll::Pending);
}

#[test]
fn racing_push_is_not_lost() {
    let mut bridge = Bridge::new();
    let mut stream = ScancodeStream::new(&mut bridge).unwrap();
    // the push is forced between the poll's emptiness check and its notifier
    // registration: the same poll call must still observe the byte
    assert_eq!(stream.poll_next_racing_push(&mut bridge, 1, 77), Poll::Ready(77));
    assert_eq!(stream.poll_next(&mut bridge, 1), Poll::Pending);
}
