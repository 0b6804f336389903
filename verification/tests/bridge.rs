//! The firmware-side USART bridge: interrupt-side intake, idle-side framing.

use test_stand::messages::HostToTarget;
use test_stand::pin::{Level, SetLevel};
use test_stand::usart::{ProcessError, ReceiveError, Tx, Usart};
use test_stand::wire::encode_frame;

#[test]
fn bytes_flow_from_interrupt_to_idle() {
    let mut bridge = Usart::new();
    assert!(!bridge.can_process());
    bridge.receive(b"abc").unwrap();
    assert!(bridge.can_process());
    let drained = bridge.process_raw().unwrap().expect("data should be pending");
    assert_eq!(drained, b"abc".to_vec());
    assert!(!bridge.can_process());
    assert!(bridge.process_raw().unwrap().is_none());
}

#[test]
fn intake_reports_queue_full() {
    let mut bridge = Usart::new();
    let too_much = vec![7u8; 300];
    assert_eq!(bridge.receive(&too_much), Err(ReceiveError::QueueFull));
    // The first 256 bytes made it in and are still intact.
    let drained = bridge.process_raw().unwrap().expect("data should be pending");
    assert_eq!(drained, vec![7u8; 256]);
}

#[test]
fn frames_are_cut_and_decoded() {
    let mut bridge = Usart::new();
    let request = HostToTarget::SetPin(SetLevel { pin: (), level: Level::Low });
    let frame = encode_frame(&request);

    // Deliver the frame in two pieces; no message until the terminator.
    bridge.receive(&frame[..2]).unwrap();
    assert!(bridge.process_message::<HostToTarget>().unwrap().is_none());
    bridge.receive(&frame[2..]).unwrap();
    let decoded = bridge
        .process_message::<HostToTarget>()
        .unwrap()
        .expect("a full frame is queued");
    bridge.clear_buf();
    assert_eq!(decoded, request);
}

#[test]
fn two_queued_frames_decode_one_at_a_time() {
    let mut bridge = Usart::new();
    let first = HostToTarget::StopTimerInterrupt;
    let second = HostToTarget::WaitForAddress(b'X');
    let mut bytes = encode_frame(&first);
    bytes.extend_from_slice(&encode_frame(&second));
    bridge.receive(&bytes).unwrap();

    let got = bridge.process_message::<HostToTarget>().unwrap().unwrap();
    bridge.clear_buf();
    assert_eq!(got, first);
    let got = bridge.process_message::<HostToTarget>().unwrap().unwrap();
    bridge.clear_buf();
    assert_eq!(got, second);
    assert!(bridge.process_message::<HostToTarget>().unwrap().is_none());
}

#[test]
fn staging_buffer_overflow_is_reported() {
    let mut bridge = Usart::new();
    // Fill the queue with a frameless run, stage it, then overflow the
    // staging buffer with one more queued byte.
    bridge.receive(&vec![1u8; 256]).unwrap();
    assert!(bridge.process_message::<HostToTarget>().unwrap().is_none());
    bridge.receive(&[2u8]).unwrap();
    assert_eq!(
        bridge.process_message::<HostToTarget>(),
        Err(ProcessError::BufferFull)
    );
}

#[test]
fn malformed_frame_is_a_decode_error() {
    let mut bridge = Usart::new();
    bridge.receive(&[0x02, 0x99, 0x00]).unwrap();
    assert_eq!(
        bridge.process_message::<HostToTarget>(),
        Err(ProcessError::Decode)
    );
}

#[test]
fn transmitter_appends_frames_to_the_wire() {
    let mut tx = Tx::new();
    let mut wire: Vec<u8> = Vec::new();
    tx.send_raw(b"raw", &mut wire);
    assert_eq!(wire, b"raw".to_vec());
    let message = HostToTarget::StopTimerInterrupt;
    tx.send_message(&message, &mut wire);
    assert_eq!(&wire[3..], &[0x02, 0x05, 0x00]);
}
