//! FIFO order and backpressure of the interrupt/idle bridge queue.

use test_stand::pin::Level;
use test_stand::pin_interrupt::Event;
use test_stand::queue::{Queue, QueueFull};

#[test]
fn fifo_order_is_kept() {
    let mut q: Queue<u8> = Queue::new(8);
    assert!(!q.is_ready());
    for b in [10u8, 20, 30] {
        q.enqueue(b).unwrap();
    }
    assert!(q.is_ready());
    assert_eq!(q.dequeue(), Some(10));
    q.enqueue(40).unwrap();
    assert_eq!(q.dequeue(), Some(20));
    assert_eq!(q.dequeue(), Some(30));
    assert_eq!(q.dequeue(), Some(40));
    assert_eq!(q.dequeue(), None);
    assert!(!q.is_ready());
}

#[test]
fn backpressure_rejects_and_preserves() {
    let mut q: Queue<u8> = Queue::new(2);
    assert_eq!(q.capacity(), 2);
    q.enqueue(1).unwrap();
    q.enqueue(2).unwrap();
    // A full queue rejects the new item and corrupts nothing.
    assert_eq!(q.enqueue(3), Err(QueueFull));
    assert_eq!(q.len(), 2);
    assert_eq!(q.dequeue(), Some(1));
    // One slot is free again.
    q.enqueue(4).unwrap();
    assert_eq!(q.dequeue(), Some(2));
    assert_eq!(q.dequeue(), Some(4));
    assert_eq!(q.dequeue(), None);
}

#[test]
fn event_queue_holds_events() {
    let mut q: Queue<Event> = Queue::new(4);
    let first = Event { level: Level::High, period: None };
    let second = Event { level: Level::Low, period: Some(12000) };
    q.enqueue(first).unwrap();
    q.enqueue(second).unwrap();
    assert_eq!(q.dequeue(), Some(first));
    assert_eq!(q.dequeue(), Some(second));
}

#[test]
fn zero_capacity_queue_accepts_nothing() {
    let mut q: Queue<u8> = Queue::new(0);
    assert_eq!(q.enqueue(1), Err(QueueFull));
    assert_eq!(q.dequeue(), None);
}
