//! The host-side transport client, over the in-memory port.

use test_stand::assistant::{Assistant, AssistantError, AssistantUsartWaitError};
use test_stand::conn::Conn;
use test_stand::pin::{Level, LevelChanged, ReadLevel, ReadLevelResult, SetLevel};
use test_stand::pins::{Pin, Pins, ReadLevelError};
use test_stand::port::SimPort;
use test_stand::notify;
use test_stand::protocol::{AssistantToHost, HostToAssistant, InputPin, OutputPin, UsartMode};
use test_stand::serial::Serial;
use test_stand::stand::TestStandLock;
use test_stand::target::{Target, TargetPinReadError, TargetUsartWaitError};
use test_stand::messages::{HostToTarget, TargetToHost};
use test_stand::wait::UsartWaitError;
use test_stand::wire::encode_frame;

#[test]
fn conn_send_writes_one_frame() {
    let mut conn = Conn::new(SimPort::new(1));
    let message = HostToTarget::StopTimerInterrupt;
    conn.send(&message).unwrap();
    let mut port = conn.into_port();
    assert_eq!(port.take_sent(), encode_frame(&message));
}

#[test]
fn conn_receive_decodes_the_first_frame() {
    let mut port = SimPort::new(1);
    let first = TargetToHost::I2cReply(0x44);
    let second = TargetToHost::SpiReply(0x10);
    port.push_incoming(&encode_frame(&first));
    port.push_incoming(&encode_frame(&second));
    let mut conn = Conn::new(port);
    assert_eq!(conn.receive::<TargetToHost>(10).unwrap(), first);
    assert_eq!(conn.receive::<TargetToHost>(10).unwrap(), second);
}

#[test]
fn conn_receive_times_out_within_budget() {
    let mut conn = Conn::new(SimPort::new(1));
    let err = conn.receive::<TargetToHost>(50).unwrap_err();
    assert!(err.is_timeout());
    // The blocking read consumed exactly its budget of simulated time.
    let mut port = conn.into_port();
    port.advance_ms(0);
    let mut conn = Conn::new(port);
    assert_eq!(conn.now_ms(), 50);
}

#[test]
fn conn_receive_reports_decode_errors() {
    let mut port = SimPort::new(1);
    port.push_incoming(&[0x02, 0x99, 0x00]);
    let mut conn = Conn::new(port);
    let err = conn.receive::<TargetToHost>(10).unwrap_err();
    assert!(!err.is_timeout());
}

#[test]
fn pin_read_level_request_reply() {
    let mut port = SimPort::new(1);
    let reply = AssistantToHost::ReadPinResult(Some(ReadLevelResult {
        pin: InputPin::Green,
        level: Level::High,
        period_ms: Some(3),
    }));
    port.push_incoming(&encode_frame(&reply));
    let mut conn = Conn::new(port);
    let mut pin = Pin::new(InputPin::Green);
    let got = pin
        .read_level::<SimPort, HostToAssistant, AssistantToHost>(10, &mut conn)
        .unwrap();
    assert_eq!(got, (Level::High, Some(3)));
    // The request went out first.
    let mut port = conn.into_port();
    assert_eq!(
        port.take_sent(),
        encode_frame(&HostToAssistant::ReadPin(ReadLevel { pin: InputPin::Green }))
    );
}

#[test]
fn pin_read_level_rejects_other_pins() {
    let mut port = SimPort::new(1);
    let reply = AssistantToHost::ReadPinResult(Some(ReadLevelResult {
        pin: InputPin::Blue,
        level: Level::High,
        period_ms: None,
    }));
    port.push_incoming(&encode_frame(&reply));
    let mut conn = Conn::new(port);
    let mut pin = Pin::new(InputPin::Green);
    let err = pin
        .read_level::<SimPort, HostToAssistant, AssistantToHost>(10, &mut conn)
        .unwrap_err();
    assert_eq!(err, ReadLevelError::UnexpectedMessage);
}

#[test]
fn pin_set_level_sends_the_command() {
    let mut conn = Conn::new(SimPort::new(1));
    let mut pin = Pin::new(OutputPin::Cts);
    pin.set_level::<SimPort, HostToAssistant>(Level::Low, &mut conn)
        .unwrap();
    let mut port = conn.into_port();
    assert_eq!(
        port.take_sent(),
        encode_frame(&HostToAssistant::SetPin(SetLevel {
            pin: OutputPin::Cts,
            level: Level::Low,
        }))
    );
}

#[test]
fn pins_read_level_keeps_the_last_notification() {
    let mut port = SimPort::new(1);
    for (level, period) in [(Level::High, None), (Level::Low, Some(250u32))] {
        port.push_incoming(&encode_frame(&notify::AssistantToHost::PinLevelChanged(
            LevelChanged { pin: InputPin::Green, level, period_ms: period },
        )));
    }
    let mut conn = Conn::new(port);
    let mut pins = Pins::new();
    let got = pins
        .read_level::<SimPort, InputPin, notify::AssistantToHost>(InputPin::Green, 50, &mut conn);
    assert_eq!(got.unwrap(), (Level::Low, Some(250)));
}

#[test]
fn pins_read_level_times_out_when_silent() {
    let mut conn = Conn::new(SimPort::new(1));
    let mut pins = Pins::new();
    let got = pins
        .read_level::<SimPort, InputPin, notify::AssistantToHost>(InputPin::Green, 50, &mut conn);
    assert_eq!(got.unwrap_err(), ReadLevelError::Timeout);
}

#[test]
fn pins_read_level_rejects_unrelated_messages() {
    let mut port = SimPort::new(1);
    port.push_incoming(&encode_frame(&notify::AssistantToHost::UsartReceive(b"x".to_vec())));
    let mut conn = Conn::new(port);
    let mut pins = Pins::new();
    let got = pins
        .read_level::<SimPort, InputPin, notify::AssistantToHost>(InputPin::Green, 50, &mut conn);
    assert_eq!(got.unwrap_err(), ReadLevelError::UnexpectedMessage);
}

#[test]
fn pin_state_keeps_the_most_recent_notification() {
    let mut port = SimPort::new(1);
    for level in [Level::High, Level::Low] {
        port.push_incoming(&encode_frame(&TargetToHost::PinLevelChanged { level }));
    }
    let mut target = Target::new(Conn::new(port));
    assert_eq!(target.pin_state(10).unwrap(), Level::Low);
}

#[test]
fn pin_state_times_out_on_silence() {
    let mut target = Target::new(Conn::new(SimPort::new(1)));
    let err = target.pin_state(10).unwrap_err();
    assert_eq!(err, TargetPinReadError(ReadLevelError::Timeout));
}

#[test]
fn pin_state_rejects_unrelated_messages() {
    let mut port = SimPort::new(1);
    port.push_incoming(&encode_frame(&TargetToHost::I2cReply(1)));
    let mut target = Target::new(Conn::new(port));
    let err = target.pin_state(10).unwrap_err();
    assert_eq!(err, TargetPinReadError(ReadLevelError::UnexpectedMessage));
}

#[test]
fn wait_for_usart_accumulates_chunks() {
    let mut port = SimPort::new(1);
    for chunk in [&b"Hel"[..], &b"lo, wor"[..], &b"ld!"[..]] {
        port.push_incoming(&encode_frame(&TargetToHost::UsartReceive {
            mode: UsartMode::Regular,
            data: chunk.to_vec(),
        }));
    }
    let mut target = Target::new(Conn::new(port));
    let received = target.wait_for_usart_rx(b"Hello, world!", 50).unwrap();
    assert_eq!(received, b"Hello, world!".to_vec());
}

#[test]
fn wait_for_usart_rejects_wrong_mode() {
    let mut port = SimPort::new(1);
    port.push_incoming(&encode_frame(&TargetToHost::UsartReceive {
        mode: UsartMode::Dma,
        data: b"Hello".to_vec(),
    }));
    let mut target = Target::new(Conn::new(port));
    let err = target.wait_for_usart_rx(b"Hello", 50).unwrap_err();
    assert_eq!(err, TargetUsartWaitError(UsartWaitError::UnexpectedMessage));
}

#[test]
fn wait_for_usart_times_out_after_the_budget() {
    // Unrelated traffic keeps arriving, but the awaited bytes never do: once
    // the clock passes the budget, the wait reports a timeout, and only then.
    let mut port = SimPort::new(60);
    port.push_incoming(&encode_frame(&TargetToHost::UsartReceive {
        mode: UsartMode::Regular,
        data: b"xyz".to_vec(),
    }));
    let mut target = Target::new(Conn::new(port));
    let err = target.wait_for_usart_rx(b"absent", 50).unwrap_err();
    assert_eq!(err, TargetUsartWaitError(UsartWaitError::Timeout));
    let mut conn = target.into_conn();
    assert!(conn.now_ms() > 50);
}

#[test]
fn expect_nothing_succeeds_on_silence() {
    let mut assistant = Assistant::new(Conn::new(SimPort::new(1)));
    assert_eq!(assistant.expect_nothing_from_target(50), Ok(()));
}

#[test]
fn expect_nothing_reports_traffic() {
    let mut port = SimPort::new(1);
    port.push_incoming(&encode_frame(&AssistantToHost::UsartReceive {
        mode: UsartMode::Regular,
        data: b"!".to_vec(),
    }));
    let mut assistant = Assistant::new(Conn::new(port));
    assert!(matches!(
        assistant.expect_nothing_from_target(50),
        Err(AssistantError::ExpectNothing(_))
    ));
}

#[test]
fn receive_from_target_usart_times_out_within_budget() {
    let mut assistant = Assistant::new(Conn::new(SimPort::new(1)));
    let err = assistant.receive_from_target_usart(b"never", 50).unwrap_err();
    // The very first blocking read eats the budget; either shape reports it.
    assert!(matches!(
        err,
        AssistantError::UsartWait(AssistantUsartWaitError::Receive(_))
            | AssistantError::UsartWait(AssistantUsartWaitError::Timeout)
    ));
    let mut conn = assistant.into_conn();
    assert!(conn.now_ms() <= 2 * 50);
}

#[test]
fn measure_gpio_period_tracks_min_and_max() {
    let mut port = SimPort::new(1);
    let readings = [
        (Level::High, None),
        (Level::Low, Some(100u32)),
        (Level::High, Some(150)),
        (Level::Low, Some(50)),
    ];
    for (level, period_ms) in readings {
        port.push_incoming(&encode_frame(&AssistantToHost::ReadPinResult(Some(
            ReadLevelResult { pin: InputPin::Blue, level, period_ms },
        ))));
    }
    let mut assistant = Assistant::new(Conn::new(port));
    let measurement = assistant.measure_gpio_period(3, 50).unwrap();
    assert_eq!(measurement.min, 50);
    assert_eq!(measurement.max, 150);
}

#[test]
fn serial_waits_for_the_expected_suffix() {
    let mut port = SimPort::new(1);
    port.push_incoming(b"noise before: pong");
    let mut serial = Serial::new(port);
    serial.send(b"ping").unwrap();
    let received = serial.wait_for(b"pong", 50).unwrap();
    assert_eq!(received, b"noise before: pong".to_vec());
    let mut port = serial.into_port();
    assert_eq!(port.take_sent(), b"ping".to_vec());
}

#[test]
fn serial_wait_times_out() {
    let mut serial = Serial::new(SimPort::new(1));
    assert!(serial.wait_for(b"anything", 50).is_err());
}

#[test]
fn test_stand_acquisitions_serialize() {
    let mut lock = TestStandLock::new();
    let guard = lock.try_acquire().expect("first acquisition succeeds");
    // A second test cannot enter while the first holds the stand.
    assert!(lock.try_acquire().is_none());
    assert!(lock.try_acquire().is_none());
    lock.release(guard);
    // After the first run is over, the next one gets in.
    let guard = lock.try_acquire().expect("after release, acquisition succeeds");
    lock.release(guard);
}
