//! The firmware dispatch step in isolation.

use test_stand::firmware::{
    handle_pin_interrupt, handle_timer_interrupts, AssistantFirmware, PinTable,
};
use test_stand::notify;
use test_stand::pin::{Level, LevelChanged, ReadLevel, ReadLevelResult, SetLevel};
use test_stand::pin_interrupt::PinInterrupt;
use test_stand::protocol::{AssistantToHost, HostToAssistant, InputPin, OutputPin, UsartMode};

#[test]
fn pin_events_land_in_the_table() {
    let mut capture = PinInterrupt::new();
    let mut pins = PinTable::new();
    capture.handle_interrupt(true, false, false, 0).unwrap();
    // 24000 timer ticks are two milliseconds.
    capture.handle_interrupt(false, true, false, 24000).unwrap();
    handle_pin_interrupt(&mut capture, InputPin::Blue, &mut pins);
    assert_eq!(pins.get(InputPin::Blue), Some((Level::Low, Some(2))));
    assert_eq!(pins.get(InputPin::Green), None);
    assert_eq!(capture.next(), None);
}

#[test]
fn timer_interrupts_become_notifications() {
    let mut capture = PinInterrupt::new();
    capture.handle_interrupt(true, false, false, 0).unwrap();
    capture.handle_interrupt(false, true, false, 36000).unwrap();
    let mut out: Vec<notify::AssistantToHost> = Vec::new();
    handle_timer_interrupts(&mut capture, InputPin::Rts, &mut out);
    assert_eq!(
        out,
        vec![
            notify::AssistantToHost::PinLevelChanged(LevelChanged {
                pin: InputPin::Rts,
                level: Level::High,
                period_ms: None,
            }),
            notify::AssistantToHost::PinLevelChanged(LevelChanged {
                pin: InputPin::Rts,
                level: Level::Low,
                period_ms: Some(3),
            }),
        ]
    );
}

#[test]
fn send_usart_modes_use_their_own_wire() {
    let mut firmware = AssistantFirmware::new();
    let mut regular: Vec<u8> = Vec::new();
    let mut dma: Vec<u8> = Vec::new();
    let mut sync: Vec<u8> = Vec::new();
    let mut replies: Vec<AssistantToHost> = Vec::new();

    for (mode, data) in [
        (UsartMode::Regular, &b"reg"[..]),
        (UsartMode::Dma, &b"dma"[..]),
        (UsartMode::Sync, &b"syn"[..]),
        (UsartMode::FlowControl, &b"drop"[..]),
    ] {
        firmware.handle_host_message(
            HostToAssistant::SendUsart { mode, data: data.to_vec() },
            &mut regular,
            &mut dma,
            &mut sync,
            &mut replies,
        );
    }
    assert_eq!(regular, b"reg".to_vec());
    assert_eq!(dma, b"dma".to_vec());
    assert_eq!(sync, b"syn".to_vec());
    assert!(replies.is_empty());
}

#[test]
fn set_pin_then_read_pin_replies_with_the_entry() {
    let mut firmware = AssistantFirmware::new();
    let mut regular: Vec<u8> = Vec::new();
    let mut dma: Vec<u8> = Vec::new();
    let mut sync: Vec<u8> = Vec::new();
    let mut replies: Vec<AssistantToHost> = Vec::new();

    firmware.handle_host_message(
        HostToAssistant::SetPin(SetLevel { pin: OutputPin::Red, level: Level::Low }),
        &mut regular,
        &mut dma,
        &mut sync,
        &mut replies,
    );

    // Nothing was ever observed on the green pin: the reply is empty.
    firmware.handle_host_message(
        HostToAssistant::ReadPin(ReadLevel { pin: InputPin::Green }),
        &mut regular,
        &mut dma,
        &mut sync,
        &mut replies,
    );
    assert_eq!(replies, vec![AssistantToHost::ReadPinResult(None)]);
    replies.clear();

    // After an observed change, the reply carries it.
    firmware.record_pin_event(InputPin::Green, Level::High, Some(5));
    firmware.handle_host_message(
        HostToAssistant::ReadPin(ReadLevel { pin: InputPin::Green }),
        &mut regular,
        &mut dma,
        &mut sync,
        &mut replies,
    );
    assert_eq!(
        replies,
        vec![AssistantToHost::ReadPinResult(Some(ReadLevelResult {
            pin: InputPin::Green,
            level: Level::High,
            period_ms: Some(5),
        }))]
    );
}
