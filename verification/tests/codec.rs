//! Round-trip and exact-bytes tests for the framing and encoding codec.

use test_stand::cobs::{cobs_decode, cobs_encode};
use test_stand::messages::{DmaMode, HostToTarget, TargetToHost};
use test_stand::notify;
use test_stand::pin::{Level, LevelChanged, ReadLevel, ReadLevelResult, SetLevel};
use test_stand::protocol::{AssistantToHost, HostToAssistant, InputPin, OutputPin, UsartMode};
use test_stand::wire::{decode_frame, encode_frame};

fn frame_round_trip<M>(message: M) -> M
where
    M: test_stand::wire::WireMessage,
{
    let frame = encode_frame(&message);
    assert_eq!(frame.last(), Some(&0u8));
    assert!(frame[..frame.len() - 1].iter().all(|&b| b != 0));
    decode_frame::<M>(&frame).expect("frame should decode")
}

#[test]
fn cobs_matches_reference_implementation() {
    let cases: Vec<Vec<u8>> = vec![
        vec![],
        vec![0],
        vec![0, 0],
        vec![1],
        vec![1, 2, 0, 3],
        vec![0, 1, 0],
        (1..=255u8).collect(),
        (0..=255u8).collect(),
        std::iter::repeat(7u8).take(600).collect(),
    ];
    for data in cases {
        let ours = cobs_encode(&data);
        let reference = cobs::encode_vec(&data);
        assert_eq!(ours, reference, "encoding of {:?}", data);
        let back = cobs_decode(&ours).expect("our encoding should decode");
        assert_eq!(back, data);
        let reference_back = cobs::decode_vec(&ours).expect("reference should decode ours");
        assert_eq!(reference_back, data);
    }
}

#[test]
fn cobs_exact_bytes() {
    assert_eq!(cobs_encode(&[]), vec![0x01]);
    assert_eq!(cobs_encode(&[0x00]), vec![0x01, 0x01]);
    assert_eq!(cobs_encode(&[0x11, 0x22, 0x00, 0x33]), vec![0x03, 0x11, 0x22, 0x02, 0x33]);
    assert_eq!(cobs_encode(&[0x11, 0x00]), vec![0x02, 0x11, 0x01]);
}

#[test]
fn cobs_rejects_malformed() {
    assert!(cobs_decode(&[]).is_none());
    assert!(cobs_decode(&[0x00]).is_none());
    assert!(cobs_decode(&[0x05, 0x01]).is_none());
    assert!(cobs_decode(&[0x03, 0x01, 0x00]).is_none());
}

#[test]
fn host_to_target_round_trips() {
    let messages = vec![
        HostToTarget::SendUsart {
            mode: UsartMode::Regular,
            data: b"Hello, world!".to_vec(),
        },
        HostToTarget::SendUsart {
            mode: UsartMode::Dma,
            data: vec![],
        },
        HostToTarget::SendUsart {
            mode: UsartMode::FlowControl,
            data: vec![0, 1, 2, 0],
        },
        HostToTarget::SendUsart {
            mode: UsartMode::Sync,
            data: vec![255; 300],
        },
        HostToTarget::WaitForAddress(b'X'),
        HostToTarget::SetPin(SetLevel { pin: (), level: Level::High }),
        HostToTarget::SetPin(SetLevel { pin: (), level: Level::Low }),
        HostToTarget::ReadPin(ReadLevel { pin: () }),
        HostToTarget::StartTimerInterrupt { period_ms: 100 },
        HostToTarget::StartTimerInterrupt { period_ms: u32::MAX },
        HostToTarget::StopTimerInterrupt,
        HostToTarget::StartI2cTransaction {
            mode: DmaMode::Regular,
            address: 0x48,
            data: 0x22,
        },
        HostToTarget::StartSpiTransaction { mode: DmaMode::Dma, data: 0x22 },
        HostToTarget::ReadAdc,
    ];
    for message in messages {
        let back = frame_round_trip(message.clone());
        assert_eq!(back, message);
    }
}

#[test]
fn target_to_host_round_trips() {
    let messages = vec![
        TargetToHost::UsartReceive {
            mode: UsartMode::Regular,
            data: b"abc".to_vec(),
        },
        TargetToHost::ReadPinResult(None),
        TargetToHost::ReadPinResult(Some(ReadLevelResult {
            pin: (),
            level: Level::High,
            period_ms: None,
        })),
        TargetToHost::ReadPinResult(Some(ReadLevelResult {
            pin: (),
            level: Level::Low,
            period_ms: Some(1500),
        })),
        TargetToHost::I2cReply(0x44),
        TargetToHost::SpiReply(0x00),
        TargetToHost::AdcValue(0),
        TargetToHost::AdcValue(u16::MAX),
    ];
    for message in messages {
        let back = frame_round_trip(message.clone());
        assert_eq!(back, message);
    }
}

#[test]
fn assistant_family_round_trips() {
    let messages = vec![
        HostToAssistant::SendUsart {
            mode: UsartMode::Regular,
            data: b"ping".to_vec(),
        },
        HostToAssistant::SetPin(SetLevel { pin: OutputPin::Red, level: Level::High }),
        HostToAssistant::SetPin(SetLevel { pin: OutputPin::Cts, level: Level::Low }),
        HostToAssistant::SetPin(SetLevel { pin: OutputPin::Pin5, level: Level::Low }),
        HostToAssistant::ReadPin(ReadLevel { pin: InputPin::Green }),
        HostToAssistant::ReadPin(ReadLevel { pin: InputPin::Blue }),
        HostToAssistant::ReadPin(ReadLevel { pin: InputPin::Rts }),
    ];
    for message in messages {
        let back = frame_round_trip(message.clone());
        assert_eq!(back, message);
    }
    let replies = vec![
        AssistantToHost::UsartReceive {
            mode: UsartMode::Sync,
            data: vec![1, 2, 3],
        },
        AssistantToHost::ReadPinResult(None),
        AssistantToHost::ReadPinResult(Some(ReadLevelResult {
            pin: InputPin::Rts,
            level: Level::Low,
            period_ms: Some(7),
        })),
    ];
    for message in replies {
        let back = frame_round_trip(message.clone());
        assert_eq!(back, message);
    }
}

#[test]
fn notify_family_round_trips() {
    let messages = vec![
        notify::HostToAssistant::SendUsart(notify::Mode::Regular, b"x".to_vec()),
        notify::HostToAssistant::SendUsart(notify::Mode::Dma, vec![]),
        notify::HostToAssistant::SetPin(notify::PinState::High),
        notify::HostToAssistant::SetPin(notify::PinState::Low),
    ];
    for message in messages {
        let back = frame_round_trip(message.clone());
        assert_eq!(back, message);
    }
    let replies = vec![
        notify::AssistantToHost::UsartReceive(b"data".to_vec()),
        notify::AssistantToHost::PinLevelChanged(LevelChanged {
            pin: InputPin::Blue,
            level: Level::High,
            period_ms: None,
        }),
        notify::AssistantToHost::PinLevelChanged(LevelChanged {
            pin: InputPin::Green,
            level: Level::Low,
            period_ms: Some(250),
        }),
    ];
    for message in replies {
        let back = frame_round_trip(message.clone());
        assert_eq!(back, message);
    }
}

#[test]
fn exact_frame_bytes() {
    // StopTimerInterrupt is discriminant 5 with no fields; its stuffed frame
    // is a two-byte group plus the terminator.
    let frame = encode_frame(&HostToTarget::StopTimerInterrupt);
    assert_eq!(frame, vec![0x02, 0x05, 0x00]);

    // SetPin(High) on the target link: discriminant 2, no pin byte for the
    // unit pin, level byte 0.
    let frame = encode_frame(&HostToTarget::SetPin(SetLevel { pin: (), level: Level::High }));
    assert_eq!(frame, vec![0x02, 0x02, 0x01, 0x00]);

    // A payload with zeros inside: discriminant 0, mode 0, the length 2 as
    // four little-endian bytes, then 0xAA 0x00 - every zero becomes a group
    // boundary in the stuffed form.
    let frame = encode_frame(&HostToTarget::SendUsart {
        mode: UsartMode::Regular,
        data: vec![0xAA, 0x00],
    });
    assert_eq!(
        frame,
        vec![0x01, 0x01, 0x02, 0x02, 0x01, 0x01, 0x02, 0xAA, 0x01, 0x00]
    );
}

#[test]
fn decode_rejects_malformed_frames() {
    // Unknown discriminant.
    let frame = cobs_then_terminator(&[0x99]);
    assert!(decode_frame::<HostToTarget>(&frame).is_none());
    // Truncated fields.
    let frame = cobs_then_terminator(&[0x04]);
    assert!(decode_frame::<HostToTarget>(&frame).is_none());
    // Inconsistent length prefix.
    let frame = cobs_then_terminator(&[0x00, 0x00, 0x05, 0x00, 0x00, 0x00, 0x01]);
    assert!(decode_frame::<HostToTarget>(&frame).is_none());
    // Trailing garbage after a complete message.
    let frame = cobs_then_terminator(&[0x05, 0x07]);
    assert!(decode_frame::<HostToTarget>(&frame).is_none());
    // Missing terminator.
    assert!(decode_frame::<HostToTarget>(&[0x02, 0x05]).is_none());
    // Bad level byte.
    let frame = cobs_then_terminator(&[0x02, 0x02]);
    assert!(decode_frame::<HostToTarget>(&frame).is_none());
}

fn cobs_then_terminator(payload: &[u8]) -> Vec<u8> {
    let mut frame = cobs_encode(payload);
    frame.push(0);
    frame
}
