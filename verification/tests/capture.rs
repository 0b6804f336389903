//! Pin-edge capture and period measurement.

use test_stand::pin::Level;
use test_stand::pin_interrupt::{Event, PinInterrupt};

#[test]
fn first_edge_has_no_period() {
    let mut capture = PinInterrupt::new();
    capture.handle_interrupt(true, false, false, 5).unwrap();
    assert_eq!(
        capture.next(),
        Some(Event { level: Level::High, period: None })
    );
    assert_eq!(capture.next(), None);
}

#[test]
fn second_edge_reports_elapsed_ticks() {
    let mut capture = PinInterrupt::new();
    capture.handle_interrupt(true, false, false, 0).unwrap();
    capture.handle_interrupt(false, true, false, 24000).unwrap();
    assert_eq!(
        capture.next(),
        Some(Event { level: Level::High, period: None })
    );
    assert_eq!(
        capture.next(),
        Some(Event { level: Level::Low, period: Some(24000) })
    );
}

#[test]
fn wrapped_timer_yields_no_period() {
    let mut capture = PinInterrupt::new();
    capture.handle_interrupt(true, false, false, 0).unwrap();
    capture.handle_interrupt(false, true, true, 17).unwrap();
    capture.next();
    assert_eq!(
        capture.next(),
        Some(Event { level: Level::Low, period: None })
    );
}

#[test]
fn both_edges_emit_two_events_oldest_first() {
    let mut capture = PinInterrupt::new();
    capture.handle_interrupt(true, false, false, 0).unwrap();
    capture.handle_interrupt(true, true, false, 100).unwrap();
    capture.next();
    assert_eq!(
        capture.next(),
        Some(Event { level: Level::High, period: Some(100) })
    );
    assert_eq!(
        capture.next(),
        Some(Event { level: Level::Low, period: Some(100) })
    );
    assert!(!capture.is_ready());
}

#[test]
fn full_event_queue_is_an_error() {
    let mut capture = PinInterrupt::new();
    for _ in 0..32 {
        capture.handle_interrupt(true, false, false, 1).unwrap();
    }
    assert!(capture.handle_interrupt(true, false, false, 1).is_err());
    // The queued events are intact.
    let mut count: usize = 0;
    while capture.next().is_some() {
        count += 1;
    }
    assert_eq!(count, 32);
}
