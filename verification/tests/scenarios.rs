//! End-to-end scenarios: the host client talks to the modeled firmware over
//! in-memory links, the test carrying bytes across like the physical wires.

use test_stand::assistant::Assistant;
use test_stand::conn::Conn;
use test_stand::firmware::{
    handle_pin_interrupt, AssistantFirmware, FilterState, I2cSlave, PinTable, SpiSlave,
    TargetAction, TargetFirmware,
};
use test_stand::messages::{HostToTarget, TargetToHost};
use test_stand::pin::Level;
use test_stand::pin_interrupt::PinInterrupt;
use test_stand::port::SimPort;
use test_stand::protocol::{AssistantToHost, HostToAssistant, InputPin, UsartMode};
use test_stand::target::Target;
use test_stand::usart::{Tx, Usart};
use test_stand::wire::encode_frame;

/// Feeds every request the host wrote into the assistant firmware's bridge
/// and dispatches them; replies and target-bound bytes come back out.
struct AssistantNode {
    firmware: AssistantFirmware,
    host_rx: Usart,
    target_tx: Vec<u8>,
    target_tx_dma: Vec<u8>,
    target_sync_tx: Vec<u8>,
}

impl AssistantNode {
    fn new() -> AssistantNode {
        AssistantNode {
            firmware: AssistantFirmware::new(),
            host_rx: Usart::new(),
            target_tx: Vec::new(),
            target_tx_dma: Vec::new(),
            target_sync_tx: Vec::new(),
        }
    }

    /// One idle-loop pass over bytes that arrived from the host; returns the
    /// frames to send back.
    fn run(&mut self, from_host: &[u8]) -> Vec<u8> {
        self.host_rx.receive(from_host).unwrap();
        let mut replies: Vec<AssistantToHost> = Vec::new();
        loop {
            match self.host_rx.process_message::<HostToAssistant>().unwrap() {
                Some(message) => {
                    self.host_rx.clear_buf();
                    self.firmware.handle_host_message(
                        message,
                        &mut self.target_tx,
                        &mut self.target_tx_dma,
                        &mut self.target_sync_tx,
                        &mut replies,
                    );
                }
                None => break,
            }
        }
        let mut tx = Tx::new();
        let mut wire: Vec<u8> = Vec::new();
        for reply in &replies {
            tx.send_message(reply, &mut wire);
        }
        wire
    }
}

/// The target firmware with its bridge and attached slave models.
struct TargetNode {
    firmware: TargetFirmware,
    host_rx: Usart,
    usart_tx: Vec<u8>,
    i2c_slave: I2cSlave,
    spi_slave: SpiSlave,
}

impl TargetNode {
    fn new() -> TargetNode {
        TargetNode {
            firmware: TargetFirmware::new(),
            host_rx: Usart::new(),
            usart_tx: Vec::new(),
            i2c_slave: I2cSlave::new(),
            spi_slave: SpiSlave::new(),
        }
    }

    /// One idle-loop pass over bytes that arrived from the host; returns the
    /// frames to send back, performing peripheral actions on the slaves.
    fn run(&mut self, from_host: &[u8]) -> Vec<u8> {
        self.host_rx.receive(from_host).unwrap();
        let mut replies: Vec<TargetToHost> = Vec::new();
        loop {
            match self.host_rx.process_message::<HostToTarget>().unwrap() {
                Some(message) => {
                    self.host_rx.clear_buf();
                    let action = self.firmware.handle_host_message(
                        message,
                        &mut self.usart_tx,
                        &mut replies,
                    );
                    match action {
                        Some(TargetAction::I2c { data, .. }) => {
                            let reply = self.i2c_slave.transaction(data);
                            replies.push(TargetToHost::I2cReply(reply));
                        }
                        Some(TargetAction::Spi { data, .. }) => {
                            let reply = self.spi_slave.transaction(data);
                            replies.push(TargetToHost::SpiReply(reply));
                        }
                        Some(TargetAction::Adc) => {
                            replies.push(TargetToHost::AdcValue(512));
                        }
                        None => {}
                    }
                }
                None => break,
            }
        }
        let mut tx = Tx::new();
        let mut wire: Vec<u8> = Vec::new();
        for reply in &replies {
            tx.send_message(reply, &mut wire);
        }
        wire
    }
}

#[test]
fn request_reply_set_then_read_pin() {
    // The host drives the target's pin high, the level propagates to the
    // assistant's monitored pin, and a read request reports it back high.
    let mut target_node = TargetNode::new();
    let mut assistant_node = AssistantNode::new();

    // Host -> target: set the pin.
    let mut target = Target::new(Conn::new(SimPort::new(1)));
    target.set_pin_high().unwrap();
    let mut port = target.into_conn().into_port();
    let replies = target_node.run(&port.take_sent());
    assert!(replies.is_empty());
    // The firmware drove its pin; the wire carries the level to the
    // assistant, whose pin interrupt captures the edge.
    let mut capture = PinInterrupt::new();
    let mut pins = PinTable::new();
    capture.handle_interrupt(true, false, false, 0).unwrap();
    handle_pin_interrupt(&mut capture, InputPin::Green, &mut pins);
    assistant_node.firmware.record_pin_event(InputPin::Green, Level::High, None);

    // Host -> assistant: read the pin back.
    let mut port = SimPort::new(1);
    let probe = encode_frame(&HostToAssistant::ReadPin(test_stand::pin::ReadLevel {
        pin: InputPin::Green,
    }));
    // Run the request through the firmware and queue its reply for the host.
    let reply_wire = assistant_node.run(&probe);
    port.push_incoming(&reply_wire);
    let mut assistant = Assistant::new(Conn::new(port));
    assert_eq!(assistant.pin_is_high().unwrap(), true);
}

#[test]
fn usart_passthrough_reaches_the_assistant() {
    // The host tells the target to transmit; the assistant, listening on the
    // same wire, reports exactly those bytes within the budget.
    let mut target_node = TargetNode::new();
    let message = b"Hello, world!";

    let mut target = Target::new(Conn::new(SimPort::new(1)));
    target.send_usart(message).unwrap();
    let mut port = target.into_conn().into_port();
    let replies = target_node.run(&port.take_sent());
    assert!(replies.is_empty());
    assert_eq!(target_node.usart_tx, message.to_vec());

    // The assistant's monitored USART received the bytes and reports them.
    let report = encode_frame(&AssistantToHost::UsartReceive {
        mode: UsartMode::Regular,
        data: target_node.usart_tx.clone(),
    });
    let mut port = SimPort::new(1);
    port.push_incoming(&report);
    let mut assistant = Assistant::new(Conn::new(port));
    let received = assistant.receive_from_target_usart(message, 50).unwrap();
    assert_eq!(received, message.to_vec());
}

#[test]
fn address_filtering_discards_until_match() {
    // Bytes sent before the matching address byte are not forwarded; bytes
    // after it arrive verbatim.
    let mut target_node = TargetNode::new();
    let address = b'X';
    let message = b"Hello, world!";

    let mut target = Target::new(Conn::new(SimPort::new(1)));
    target.wait_for_address(address).unwrap();
    let mut port = target.into_conn().into_port();
    target_node.run(&port.take_sent());
    assert_eq!(
        target_node.firmware.current_filter(),
        FilterState::Armed(address)
    );

    // Attempts to trick the filter: plain data, the address without its high
    // bit, more data, a wrong address, more data.
    let mut delivered = Vec::new();
    delivered.extend(target_node.firmware.usart_input(b"111"));
    delivered.extend(target_node.firmware.usart_input(&[address]));
    delivered.extend(target_node.firmware.usart_input(b"222"));
    delivered.extend(target_node.firmware.usart_input(&[b'Y' | 0x80]));
    delivered.extend(target_node.firmware.usart_input(b"333"));
    assert_eq!(delivered, Vec::<u8>::new());

    // The matching address byte, then the payload.
    delivered.extend(target_node.firmware.usart_input(&[address | 0x80]));
    delivered.extend(target_node.firmware.usart_input(message));
    assert_eq!(delivered, message.to_vec());

    // The firmware reports the delivered bytes; the host sees them arrive.
    let report = encode_frame(&TargetToHost::UsartReceive {
        mode: UsartMode::Regular,
        data: delivered,
    });
    let mut port = SimPort::new(1);
    port.push_incoming(&report);
    let mut target = Target::new(Conn::new(port));
    let received = target.wait_for_usart_rx(message, 50).unwrap();
    assert_eq!(received, message.to_vec());
}

#[test]
fn flow_control_holds_bytes_until_cts() {
    // With CTS deasserted nothing reaches the wire; asserting CTS releases
    // the full message.
    let mut target_node = TargetNode::new();
    let message = b"Hello, world!";

    let mut target = Target::new(Conn::new(SimPort::new(1)));
    target.send_usart_with_flow_control(message).unwrap();
    let mut port = target.into_conn().into_port();
    target_node.run(&port.take_sent());
    assert_eq!(target_node.usart_tx, Vec::<u8>::new());

    // The assistant heard nothing.
    let mut assistant = Assistant::new(Conn::new(SimPort::new(1)));
    assert_eq!(assistant.expect_nothing_from_target(50), Ok(()));

    // Asserting CTS releases the held bytes onto the wire.
    let mut wire = std::mem::take(&mut target_node.usart_tx);
    target_node.firmware.set_cts(true, &mut wire);
    assert_eq!(wire, message.to_vec());

    let report = encode_frame(&AssistantToHost::UsartReceive {
        mode: UsartMode::Regular,
        data: wire,
    });
    let mut port = SimPort::new(1);
    port.push_incoming(&report);
    let mut assistant = Assistant::new(Conn::new(port));
    let received = assistant.receive_from_target_usart(message, 50).unwrap();
    assert_eq!(received, message.to_vec());
}

#[test]
fn i2c_transaction_round_trip() {
    let mut target_node = TargetNode::new();
    let data = 0x22;

    let mut target = Target::new(Conn::new(SimPort::new(1)));
    target.start_i2c_transaction(data, 50).unwrap_err(); // no reply queued yet
    let mut port = target.into_conn().into_port();
    let reply_wire = target_node.run(&port.take_sent());

    let mut port = SimPort::new(1);
    port.push_incoming(&reply_wire);
    let mut conn = Conn::new(port);
    let reply: TargetToHost = conn.receive(50).unwrap();
    assert_eq!(reply, TargetToHost::I2cReply(data << 1));
}

#[test]
fn spi_transaction_round_trip() {
    let mut target_node = TargetNode::new();
    let data = 0x22;

    let mut target = Target::new(Conn::new(SimPort::new(1)));
    target.start_spi_transaction(data, 50).unwrap_err(); // no reply queued yet
    let mut port = target.into_conn().into_port();
    let reply_wire = target_node.run(&port.take_sent());

    let mut port = SimPort::new(1);
    port.push_incoming(&reply_wire);
    let mut conn = Conn::new(port);
    let reply: TargetToHost = conn.receive(50).unwrap();
    assert_eq!(reply, TargetToHost::SpiReply(data << 1));
}

#[test]
fn i2c_transaction_succeeds_once_the_reply_is_on_the_wire() {
    let mut target_node = TargetNode::new();
    let data = 0x22;

    // First exchange: the request reaches the firmware and the slave's
    // reply comes back as a frame.
    let mut target = Target::new(Conn::new(SimPort::new(1)));
    target.start_i2c_transaction(data, 50).unwrap_err(); // reply not yet queued
    let mut port = target.into_conn().into_port();
    let reply_wire = target_node.run(&port.take_sent());

    // Second exchange with the reply on the wire: the transaction succeeds.
    let mut port = SimPort::new(1);
    port.push_incoming(&reply_wire);
    let mut target = Target::new(Conn::new(port));
    assert_eq!(target.start_i2c_transaction(data, 50).unwrap(), 0x44);
}

#[test]
fn spi_transaction_succeeds_once_the_reply_is_on_the_wire() {
    let mut target_node = TargetNode::new();
    let data = 0x22;

    let mut target = Target::new(Conn::new(SimPort::new(1)));
    target.start_spi_transaction(data, 50).unwrap_err(); // reply not yet queued
    let mut port = target.into_conn().into_port();
    let reply_wire = target_node.run(&port.take_sent());

    let mut port = SimPort::new(1);
    port.push_incoming(&reply_wire);
    let mut target = Target::new(Conn::new(port));
    assert_eq!(target.start_spi_transaction(data, 50).unwrap(), 0x44);
}

#[test]
fn adc_read_round_trip() {
    let mut target_node = TargetNode::new();

    let mut target = Target::new(Conn::new(SimPort::new(1)));
    target.read_adc(50).unwrap_err(); // no reply queued yet
    let mut port = target.into_conn().into_port();
    let reply_wire = target_node.run(&port.take_sent());

    let mut port = SimPort::new(1);
    port.push_incoming(&reply_wire);
    let mut target = Target::new(Conn::new(port));
    // Ask again with the reply now on the wire: the request is answered.
    let value = target.read_adc(50).unwrap();
    assert_eq!(value, 512);
}

#[test]
fn timer_interrupt_commands_are_dispatched() {
    let mut target_node = TargetNode::new();

    let mut target = Target::new(Conn::new(SimPort::new(1)));
    target.start_timer_interrupt(100).unwrap();
    target.stop_timer_interrupt().unwrap();
    let mut port = target.into_conn().into_port();
    target_node.run(&port.take_sent());
    // Both commands ran: the timer was started, then stopped again.
    assert!(!target_node.firmware.timer_running());
}
