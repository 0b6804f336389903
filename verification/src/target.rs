//! The test suite's connection to the test target (the device under test).

use vstd::prelude::*;

use crate::conn::Conn;
use crate::conn::ConnReceiveError;
use crate::conn::ConnSendError;
use crate::conn::first_frame_view;
use crate::conn::frame_consumed;
use crate::conn::io_partial;
use crate::messages::DmaMode;
use crate::messages::HostToTarget;
use crate::messages::TargetToHost;
use crate::messages::TargetToHostView;
use crate::pin::Level;
use crate::pins::Pin;
use crate::pins::Pins;
use crate::pins::ReadLevelError;
use crate::pins::drained_level_of;
use crate::pins::drained_outcome;
use crate::pins::drained_then_failed;
use crate::pins::drained_then_unexpected;
use crate::port::Port;
use crate::protocol::UsartMode;
use crate::wait::UsartWaitError;
use crate::wait::drained_usart;
use crate::wait::drained_unexpected;
use crate::wait::wait_for_usart;
use crate::wire::message_frame;
use crate::search::contains_bytes;

verus! {

/// Error setting the target's pin high.
#[derive(Clone, Copy, Debug, PartialEq, Eq, Structural)]
pub struct TargetSetPinHighError(pub ConnSendError);

/// Error setting the target's pin low.
#[derive(Clone, Copy, Debug, PartialEq, Eq, Structural)]
pub struct TargetSetPinLowError(pub ConnSendError);

/// Error reading the target's input pin.
#[derive(Clone, Copy, Debug, PartialEq, Eq, Structural)]
pub struct TargetPinReadError(pub ReadLevelError);

/// Error commanding a USART transmission.
#[derive(Clone, Copy, Debug, PartialEq, Eq, Structural)]
pub struct TargetUsartSendError(pub ConnSendError);

/// Error starting the timer interrupt.
#[derive(Clone, Copy, Debug, PartialEq, Eq, Structural)]
pub struct TargetStartTimerInterruptError(pub ConnSendError);

/// Error waiting for USART reception to be reported.
#[derive(Clone, Copy, Debug, PartialEq, Eq, Structural)]
pub struct TargetUsartWaitError(pub UsartWaitError);

/// Error running an I2C transaction.
#[derive(Clone, Copy, Debug, PartialEq, Eq, Structural)]
pub enum TargetI2cError {
    Send(ConnSendError),
    Receive(ConnReceiveError),
    UnexpectedMessage,
}

/// Error running an SPI transaction.
#[derive(Clone, Copy, Debug, PartialEq, Eq, Structural)]
pub enum TargetSpiError {
    Send(ConnSendError),
    Receive(ConnReceiveError),
    UnexpectedMessage,
}

/// Error reading the analog input.
#[derive(Clone, Copy, Debug, PartialEq, Eq, Structural)]
pub enum ReadAdcError {
    Send(ConnSendError),
    Receive(ConnReceiveError),
    UnexpectedMessage,
}

/// The I2C slave's reply carried by a message value, if any.
pub open spec fn i2c_reply(v: TargetToHostView) -> Option<u8> {
    match v {
        TargetToHostView::I2cReply(b) => Some(b),
        _ => None,
    }
}

/// The SPI slave's reply carried by a message value, if any.
pub open spec fn spi_reply(v: TargetToHostView) -> Option<u8> {
    match v {
        TargetToHostView::SpiReply(b) => Some(b),
        _ => None,
    }
}

/// The ADC reading carried by a message value, if any.
pub open spec fn adc_value(v: TargetToHostView) -> Option<u16> {
    match v {
        TargetToHostView::AdcValue(n) => Some(n),
        _ => None,
    }
}

/// The slave address the target's I2C transactions go to.
pub const I2C_SLAVE_ADDRESS: u8 = 0x48;

/// The connection to the test target.
pub struct Target<P: Port> {
    conn: Conn<P>,
    pin: Pin<()>,
}

impl<P: Port> Target<P> {
    /// Bytes that arrived from the target and were not yet consumed.
    pub closed spec fn incoming(&self) -> Seq<u8> {
        self.conn.incoming()
    }

    /// Bytes sent to the target so far.
    pub closed spec fn sent(&self) -> Seq<u8> {
        self.conn.sent()
    }

    /// The port clock's reading, in milliseconds.
    pub closed spec fn now(&self) -> u64 {
        self.conn.now()
    }

    /// Wraps an open connection to the target.
    pub fn new(conn: Conn<P>) -> (t: Target<P>)
        ensures
            t.incoming() == conn.incoming(),
            t.sent() == conn.sent(),
    {
        Target { conn, pin: Pin::new(()) }
    }

    /// Hands the connection back, consuming the handle.
    pub fn into_conn(self) -> (c: Conn<P>)
        ensures
            c.incoming() == self.incoming(),
            c.sent() == self.sent(),
    {
        self.conn
    }

    /// Instructs the target to set its GPIO pin high.
    pub fn set_pin_high(&mut self) -> (r: Result<(), TargetSetPinHighError>)
        ensures
            final(self).incoming() == old(self).incoming(),
            r is Ok ==> final(self).sent() == old(self).sent() + message_frame::<HostToTarget>(
                HostToTarget::set_pin_msg(Level::High),
            ),
            r is Err ==> final(self).sent() == old(self).sent(),
    {
        match self.pin.set_level::<P, HostToTarget>(Level::High, &mut self.conn) {
            Ok(()) => Ok(()),
            Err(e) => Err(TargetSetPinHighError(e)),
        }
    }

    /// Instructs the target to set its GPIO pin low.
    pub fn set_pin_low(&mut self) -> (r: Result<(), TargetSetPinLowError>)
        ensures
            final(self).incoming() == old(self).incoming(),
            r is Ok ==> final(self).sent() == old(self).sent() + message_frame::<HostToTarget>(
                HostToTarget::set_pin_msg(Level::Low),
            ),
            r is Err ==> final(self).sent() == old(self).sent(),
    {
        match self.pin.set_level::<P, HostToTarget>(Level::Low, &mut self.conn) {
            Ok(()) => Ok(()),
            Err(e) => Err(TargetSetPinLowError(e)),
        }
    }

    /// Asks the target for its input pin's level.
    pub fn read_pin_level(&mut self, timeout_ms: u64) -> (r: Result<
        (Level, Option<u32>),
        TargetPinReadError,
    >)
        ensures
            crate::pins::read_level_post::<(), HostToTarget, TargetToHost>(
                match r {
                    Ok(x) => Ok(x),
                    Err(e) => Err(e.0),
                },
                (),
                old(self).incoming(),
                final(self).incoming(),
                old(self).sent(),
                final(self).sent(),
            ),
    {
        match self.pin.read_level::<P, HostToTarget, TargetToHost>(timeout_ms, &mut self.conn) {
            Ok(lp) => Ok(lp),
            Err(e) => Err(TargetPinReadError(e)),
        }
    }

    /// The current state of the target's input pin.
    ///
    /// Drains the target's pin-level-changed notifications for up to the
    /// time budget and returns the most recent level; reports a timeout when
    /// none arrived, and an unexpected message when anything else did.
    #[verifier::spinoff_prover]
    #[verifier::rlimit(60)]
    pub fn pin_state(&mut self, timeout_ms: u64) -> (r: Result<Level, TargetPinReadError>)
        ensures
            final(self).sent() == old(self).sent(),
            r matches Err(TargetPinReadError(ReadLevelError::Timeout)) ==> final(self).now()
                >= old(self).now() + timeout_ms || final(self).now() == u64::MAX,
            ({
                let inc = old(self).incoming();
                let fin = final(self).incoming();
                match r {
                    Ok(level) => drained_level_of::<(), TargetToHost>(inc, (), level, fin),
                    Err(TargetPinReadError(e)) => match e {
                        ReadLevelError::Timeout => drained_outcome::<(), TargetToHost>(
                            inc,
                            (),
                            None,
                            fin,
                        ),
                        ReadLevelError::Receive(e2) => !e2.timed_out()
                            && drained_then_failed::<(), TargetToHost>(inc, (), e2, fin),
                        ReadLevelError::UnexpectedMessage => drained_then_unexpected::<
                            (),
                            TargetToHost,
                        >(inc, (), fin),
                        ReadLevelError::Send(_) => false,
                    },
                }
            }),
    {
        let ghost inc0 = self.conn.incoming();
        let mut pins = Pins::new();
        let r = pins.read_level::<P, (), TargetToHost>((), timeout_ms, &mut self.conn);
        match r {
            Ok((level, period)) => {
                proof {
                    assert(inc0 == old(self).incoming());
                    assert(drained_outcome::<(), TargetToHost>(
                        inc0,
                        (),
                        Some((level, period)),
                        self.conn.incoming(),
                    ));
                    assert(drained_level_of::<(), TargetToHost>(
                        inc0,
                        (),
                        level,
                        self.conn.incoming(),
                    ));
                }
                Ok(level)
            }
            Err(e) => Err(TargetPinReadError(e)),
        }
    }

    /// Whether the target's input pin reads high.
    pub fn pin_is_high(&mut self) -> (r: Result<bool, TargetPinReadError>)
        ensures
            match r {
                Ok(high) => exists|level: Level, period: Option<u32>|
                    {
                        &&& #[trigger] crate::pins::read_level_post::<
                            (),
                            HostToTarget,
                            TargetToHost,
                        >(
                            Ok((level, period)),
                            (),
                            old(self).incoming(),
                            final(self).incoming(),
                            old(self).sent(),
                            final(self).sent(),
                        )
                        &&& high == (level == Level::High)
                    },
                Err(e) => crate::pins::read_level_post::<(), HostToTarget, TargetToHost>(
                    Err(e.0),
                    (),
                    old(self).incoming(),
                    final(self).incoming(),
                    old(self).sent(),
                    final(self).sent(),
                ),
            },
    {
        match self.read_pin_level(10) {
            Ok((level, _)) => Ok(level == Level::High),
            Err(e) => Err(e),
        }
    }

    /// Whether the target's input pin reads low.
    pub fn pin_is_low(&mut self) -> (r: Result<bool, TargetPinReadError>)
        ensures
            match r {
                Ok(low) => exists|level: Level, period: Option<u32>|
                    {
                        &&& #[trigger] crate::pins::read_level_post::<
                            (),
                            HostToTarget,
                            TargetToHost,
                        >(
                            Ok((level, period)),
                            (),
                            old(self).incoming(),
                            final(self).incoming(),
                            old(self).sent(),
                            final(self).sent(),
                        )
                        &&& low == (level == Level::Low)
                    },
                Err(e) => crate::pins::read_level_post::<(), HostToTarget, TargetToHost>(
                    Err(e.0),
                    (),
                    old(self).incoming(),
                    final(self).incoming(),
                    old(self).sent(),
                    final(self).sent(),
                ),
            },
    {
        match self.read_pin_level(10) {
            Ok((level, _)) => Ok(level == Level::Low),
            Err(e) => Err(e),
        }
    }

    /// Instructs the target to transmit `data` over its USART.
    pub fn send_usart(&mut self, data: &[u8]) -> (r: Result<(), TargetUsartSendError>)
        requires
            data@.len() <= u32::MAX,
        ensures
            final(self).incoming() == old(self).incoming(),
            r is Ok ==> final(self).sent() == old(self).sent() + message_frame::<HostToTarget>(
                HostToTarget::send_usart_msg(UsartMode::Regular, data@),
            ),
            r is Err ==> final(self).sent() == old(self).sent(),
    {
        self.send_usart_mode(data, UsartMode::Regular)
    }

    /// Instructs the target to transmit `data` over its USART through DMA.
    pub fn send_usart_dma(&mut self, data: &[u8]) -> (r: Result<(), TargetUsartSendError>)
        requires
            data@.len() <= u32::MAX,
        ensures
            final(self).incoming() == old(self).incoming(),
            r is Ok ==> final(self).sent() == old(self).sent() + message_frame::<HostToTarget>(
                HostToTarget::send_usart_msg(UsartMode::Dma, data@),
            ),
            r is Err ==> final(self).sent() == old(self).sent(),
    {
        self.send_usart_mode(data, UsartMode::Dma)
    }

    /// Instructs the target to transmit `data` with hardware flow control.
    pub fn send_usart_with_flow_control(&mut self, data: &[u8]) -> (r: Result<
        (),
        TargetUsartSendError,
    >)
        requires
            data@.len() <= u32::MAX,
        ensures
            final(self).incoming() == old(self).incoming(),
            r is Ok ==> final(self).sent() == old(self).sent() + message_frame::<HostToTarget>(
                HostToTarget::send_usart_msg(UsartMode::FlowControl, data@),
            ),
            r is Err ==> final(self).sent() == old(self).sent(),
    {
        self.send_usart_mode(data, UsartMode::FlowControl)
    }

    /// Instructs the target to transmit `data` over its synchronous USART.
    pub fn send_usart_sync(&mut self, data: &[u8]) -> (r: Result<(), TargetUsartSendError>)
        requires
            data@.len() <= u32::MAX,
        ensures
            final(self).incoming() == old(self).incoming(),
            r is Ok ==> final(self).sent() == old(self).sent() + message_frame::<HostToTarget>(
                HostToTarget::send_usart_msg(UsartMode::Sync, data@),
            ),
            r is Err ==> final(self).sent() == old(self).sent(),
    {
        self.send_usart_mode(data, UsartMode::Sync)
    }

    fn send_usart_mode(&mut self, data: &[u8], mode: UsartMode) -> (r: Result<
        (),
        TargetUsartSendError,
    >)
        requires
            data@.len() <= u32::MAX,
        ensures
            final(self).incoming() == old(self).incoming(),
            r is Ok ==> final(self).sent() == old(self).sent() + message_frame::<HostToTarget>(
                HostToTarget::send_usart_msg(mode, data@),
            ),
            r is Err ==> final(self).sent() == old(self).sent(),
    {
        let message = HostToTarget::SendUsart { mode, data: vstd::slice::slice_to_vec(data) };
        match self.conn.send(&message) {
            Ok(()) => Ok(()),
            Err(e) => Err(TargetUsartSendError(e)),
        }
    }

    /// Instructs the target to ignore USART data until `address` (with its
    /// high bit set) is matched.
    pub fn wait_for_address(&mut self, address: u8) -> (r: Result<(), TargetUsartSendError>)
        ensures
            final(self).incoming() == old(self).incoming(),
            r is Ok ==> final(self).sent() == old(self).sent() + message_frame::<HostToTarget>(
                crate::messages::HostToTargetView::WaitForAddress(address),
            ),
            r is Err ==> final(self).sent() == old(self).sent(),
    {
        let message = HostToTarget::WaitForAddress(address);
        match self.conn.send(&message) {
            Ok(()) => Ok(()),
            Err(e) => Err(TargetUsartSendError(e)),
        }
    }

    /// Waits for the target to report receiving `data` over its USART.
    pub fn wait_for_usart_rx(&mut self, data: &[u8], timeout_ms: u64) -> (r: Result<
        Vec<u8>,
        TargetUsartWaitError,
    >)
        ensures
            final(self).sent() == old(self).sent(),
            r matches Err(TargetUsartWaitError(UsartWaitError::Timeout)) ==> final(self).now()
                > old(self).now() + timeout_ms,
            r matches Err(TargetUsartWaitError(UsartWaitError::Receive(e))) && e.timed_out()
                ==> final(self).now() >= old(self).now() + timeout_ms || final(self).now()
                == u64::MAX,
            data@.len() == 0 ==> (r matches Ok(out) && out@ == Seq::<u8>::empty()
                && final(self).incoming() == old(self).incoming()),
            wait_for_usart_post::<TargetToHost>(
                r,
                old(self).incoming(),
                final(self).incoming(),
                data@,
                UsartMode::Regular,
            ),
    {
        self.wait_for_usart_rx_inner(data, timeout_ms, UsartMode::Regular)
    }

    /// Waits for the target to report receiving `data` over its USART
    /// through DMA.
    pub fn wait_for_usart_rx_dma(&mut self, data: &[u8], timeout_ms: u64) -> (r: Result<
        Vec<u8>,
        TargetUsartWaitError,
    >)
        ensures
            final(self).sent() == old(self).sent(),
            r matches Err(TargetUsartWaitError(UsartWaitError::Timeout)) ==> final(self).now()
                > old(self).now() + timeout_ms,
            r matches Err(TargetUsartWaitError(UsartWaitError::Receive(e))) && e.timed_out()
                ==> final(self).now() >= old(self).now() + timeout_ms || final(self).now()
                == u64::MAX,
            data@.len() == 0 ==> (r matches Ok(out) && out@ == Seq::<u8>::empty()
                && final(self).incoming() == old(self).incoming()),
            wait_for_usart_post::<TargetToHost>(
                r,
                old(self).incoming(),
                final(self).incoming(),
                data@,
                UsartMode::Dma,
            ),
    {
        self.wait_for_usart_rx_inner(data, timeout_ms, UsartMode::Dma)
    }

    /// Waits for the target to report receiving `data` over its synchronous
    /// USART.
    pub fn wait_for_usart_rx_sync(&mut self, data: &[u8], timeout_ms: u64) -> (r: Result<
        Vec<u8>,
        TargetUsartWaitError,
    >)
        ensures
            final(self).sent() == old(self).sent(),
            r matches Err(TargetUsartWaitError(UsartWaitError::Timeout)) ==> final(self).now()
                > old(self).now() + timeout_ms,
            r matches Err(TargetUsartWaitError(UsartWaitError::Receive(e))) && e.timed_out()
                ==> final(self).now() >= old(self).now() + timeout_ms || final(self).now()
                == u64::MAX,
            data@.len() == 0 ==> (r matches Ok(out) && out@ == Seq::<u8>::empty()
                && final(self).incoming() == old(self).incoming()),
            wait_for_usart_post::<TargetToHost>(
                r,
                old(self).incoming(),
                final(self).incoming(),
                data@,
                UsartMode::Sync,
            ),
    {
        self.wait_for_usart_rx_inner(data, timeout_ms, UsartMode::Sync)
    }

    fn wait_for_usart_rx_inner(&mut self, data: &[u8], timeout_ms: u64, mode: UsartMode) -> (r:
        Result<Vec<u8>, TargetUsartWaitError>)
        ensures
            final(self).sent() == old(self).sent(),
            r matches Err(TargetUsartWaitError(UsartWaitError::Timeout)) ==> final(self).now()
                > old(self).now() + timeout_ms,
            r matches Err(TargetUsartWaitError(UsartWaitError::Receive(e))) && e.timed_out()
                ==> final(self).now() >= old(self).now() + timeout_ms || final(self).now()
                == u64::MAX,
            data@.len() == 0 ==> (r matches Ok(out) && out@ == Seq::<u8>::empty()
                && final(self).incoming() == old(self).incoming()),
            wait_for_usart_post::<TargetToHost>(
                r,
                old(self).incoming(),
                final(self).incoming(),
                data@,
                mode,
            ),
    {
        match wait_for_usart::<P, TargetToHost>(&mut self.conn, data, timeout_ms, mode) {
            Ok(out) => Ok(out),
            Err(e) => Err(TargetUsartWaitError(e)),
        }
    }

    /// Starts the timer interrupt with the given period.
    ///
    /// The timer keeps running until [`Self::stop_timer_interrupt`] is
    /// called: stopping is the caller's responsibility, nothing stops it on
    /// drop.
    pub fn start_timer_interrupt(&mut self, period_ms: u32) -> (r: Result<
        (),
        TargetStartTimerInterruptError,
    >)
        ensures
            final(self).incoming() == old(self).incoming(),
            r is Ok ==> final(self).sent() == old(self).sent() + message_frame::<HostToTarget>(
                crate::messages::HostToTargetView::StartTimerInterrupt { period_ms },
            ),
            r is Err ==> final(self).sent() == old(self).sent(),
    {
        let message = HostToTarget::StartTimerInterrupt { period_ms };
        match self.conn.send(&message) {
            Ok(()) => Ok(()),
            Err(e) => Err(TargetStartTimerInterruptError(e)),
        }
    }

    /// Stops the timer interrupt.
    pub fn stop_timer_interrupt(&mut self) -> (r: Result<(), TargetStartTimerInterruptError>)
        ensures
            final(self).incoming() == old(self).incoming(),
            r is Ok ==> final(self).sent() == old(self).sent() + message_frame::<HostToTarget>(
                crate::messages::HostToTargetView::StopTimerInterrupt,
            ),
            r is Err ==> final(self).sent() == old(self).sent(),
    {
        let message = HostToTarget::StopTimerInterrupt;
        match self.conn.send(&message) {
            Ok(()) => Ok(()),
            Err(e) => Err(TargetStartTimerInterruptError(e)),
        }
    }

    /// Starts an I2C transaction sending `data` and returns the slave's
    /// reply.
    pub fn start_i2c_transaction(&mut self, data: u8, timeout_ms: u64) -> (r: Result<
        u8,
        TargetI2cError,
    >)
        ensures
            i2c_post(
                r,
                old(self).incoming(),
                final(self).incoming(),
                old(self).sent(),
                final(self).sent(),
                DmaMode::Regular,
                data,
            ),
    {
        self.start_i2c_transaction_inner(data, timeout_ms, DmaMode::Regular)
    }

    /// Starts an I2C transaction through DMA.
    pub fn start_i2c_transaction_dma(&mut self, data: u8, timeout_ms: u64) -> (r: Result<
        u8,
        TargetI2cError,
    >)
        ensures
            i2c_post(
                r,
                old(self).incoming(),
                final(self).incoming(),
                old(self).sent(),
                final(self).sent(),
                DmaMode::Dma,
                data,
            ),
    {
        self.start_i2c_transaction_inner(data, timeout_ms, DmaMode::Dma)
    }

    fn start_i2c_transaction_inner(&mut self, data: u8, timeout_ms: u64, mode: DmaMode) -> (r:
        Result<u8, TargetI2cError>)
        ensures
            i2c_post(
                r,
                old(self).incoming(),
                final(self).incoming(),
                old(self).sent(),
                final(self).sent(),
                mode,
                data,
            ),
    {
        let message = HostToTarget::StartI2cTransaction {
            mode,
            address: I2C_SLAVE_ADDRESS,
            data,
        };
        match self.conn.send(&message) {
            Ok(()) => (),
            Err(e) => {
                return Err(TargetI2cError::Send(e));
            }
        }
        let reply: TargetToHost = match self.conn.receive::<TargetToHost>(timeout_ms) {
            Ok(m) => m,
            Err(e) => {
                return Err(TargetI2cError::Receive(e));
            }
        };
        match reply {
            TargetToHost::I2cReply(b) => Ok(b),
            _ => Err(TargetI2cError::UnexpectedMessage),
        }
    }

    /// Starts an SPI transaction sending `data` and returns the slave's
    /// reply.
    pub fn start_spi_transaction(&mut self, data: u8, timeout_ms: u64) -> (r: Result<
        u8,
        TargetSpiError,
    >)
        ensures
            spi_post(
                r,
                old(self).incoming(),
                final(self).incoming(),
                old(self).sent(),
                final(self).sent(),
                DmaMode::Regular,
                data,
            ),
    {
        self.start_spi_transaction_inner(data, timeout_ms, DmaMode::Regular)
    }

    /// Starts an SPI transaction through DMA.
    pub fn start_spi_transaction_dma(&mut self, data: u8, timeout_ms: u64) -> (r: Result<
        u8,
        TargetSpiError,
    >)
        ensures
            spi_post(
                r,
                old(self).incoming(),
                final(self).incoming(),
                old(self).sent(),
                final(self).sent(),
                DmaMode::Dma,
                data,
            ),
    {
        self.start_spi_transaction_inner(data, timeout_ms, DmaMode::Dma)
    }

    fn start_spi_transaction_inner(&mut self, data: u8, timeout_ms: u64, mode: DmaMode) -> (r:
        Result<u8, TargetSpiError>)
        ensures
            spi_post(
                r,
                old(self).incoming(),
                final(self).incoming(),
                old(self).sent(),
                final(self).sent(),
                mode,
                data,
            ),
    {
        let message = HostToTarget::StartSpiTransaction { mode, data };
        match self.conn.send(&message) {
            Ok(()) => (),
            Err(e) => {
                return Err(TargetSpiError::Send(e));
            }
        }
        let reply: TargetToHost = match self.conn.receive::<TargetToHost>(timeout_ms) {
            Ok(m) => m,
            Err(e) => {
                return Err(TargetSpiError::Receive(e));
            }
        };
        match reply {
            TargetToHost::SpiReply(b) => Ok(b),
            _ => Err(TargetSpiError::UnexpectedMessage),
        }
    }

    /// Asks the target for a reading of its analog input.
    pub fn read_adc(&mut self, timeout_ms: u64) -> (r: Result<u16, ReadAdcError>)
        ensures
            ({
                let inc = old(self).incoming();
                let fin = final(self).incoming();
                let req = message_frame::<HostToTarget>(
                    crate::messages::HostToTargetView::ReadAdc,
                );
                match r {
                    Ok(value) => {
                        &&& final(self).sent() == old(self).sent() + req
                        &&& frame_consumed(inc, fin)
                        &&& first_frame_view::<TargetToHost>(inc) matches Some(v) && adc_value(v)
                            == Some(value)
                    },
                    Err(ReadAdcError::Send(_)) => {
                        &&& final(self).sent() == old(self).sent()
                        &&& fin == inc
                    },
                    Err(ReadAdcError::Receive(e)) => {
                        &&& final(self).sent() == old(self).sent() + req
                        &&& (e.0 is Io ==> io_partial(inc, fin))
                        &&& (e.0 is Decode ==> frame_consumed(inc, fin) && first_frame_view::<
                            TargetToHost,
                        >(inc) is None)
                    },
                    Err(ReadAdcError::UnexpectedMessage) => {
                        &&& final(self).sent() == old(self).sent() + req
                        &&& frame_consumed(inc, fin)
                        &&& first_frame_view::<TargetToHost>(inc) matches Some(v) && adc_value(v)
                            is None
                    },
                }
            }),
    {
        let message = HostToTarget::ReadAdc;
        match self.conn.send(&message) {
            Ok(()) => (),
            Err(e) => {
                return Err(ReadAdcError::Send(e));
            }
        }
        let reply: TargetToHost = match self.conn.receive::<TargetToHost>(timeout_ms) {
            Ok(m) => m,
            Err(e) => {
                return Err(ReadAdcError::Receive(e));
            }
        };
        match reply {
            TargetToHost::AdcValue(value) => Ok(value),
            _ => Err(ReadAdcError::UnexpectedMessage),
        }
    }
}

impl HostToTarget {
    /// The message value that drives the target's pin to `level`.
    pub open spec fn set_pin_msg(level: Level) -> crate::messages::HostToTargetView {
        crate::messages::HostToTargetView::SetPin(
            crate::pin::SetLevel { pin: (), level },
        )
    }

    /// The message value that transmits `data` over the target's USART.
    pub open spec fn send_usart_msg(mode: UsartMode, data: Seq<u8>) -> crate::messages::HostToTargetView {
        crate::messages::HostToTargetView::SendUsart { mode, data }
    }
}

/// Contract of the wait-for-reception operations, shared by the transmission
/// modes.
pub open spec fn wait_for_usart_post<M: crate::wait::UsartData>(
    r: Result<Vec<u8>, TargetUsartWaitError>,
    inc: Seq<u8>,
    fin: Seq<u8>,
    data: Seq<u8>,
    mode: UsartMode,
) -> bool {
    match r {
        Ok(out) => {
            &&& contains_bytes(out@, data)
            &&& exists|k: nat| #[trigger] drained_usart::<M>(inc, mode, k) == Some((out@, fin))
        },
        Err(TargetUsartWaitError(UsartWaitError::Timeout)) => exists|k: nat|
            (#[trigger] drained_usart::<M>(inc, mode, k)) matches Some((bytes, rest))
                && !contains_bytes(bytes, data) && fin == rest,
        Err(TargetUsartWaitError(UsartWaitError::UnexpectedMessage)) => exists|k: nat|
            drained_unexpected::<M>(inc, mode, k, fin),
        Err(TargetUsartWaitError(UsartWaitError::Receive(e))) => exists|k: nat|
            {
                &&& (#[trigger] drained_usart::<M>(inc, mode, k)) matches Some((bytes, rest))
                &&& (e.0 is Io ==> io_partial(rest, fin))
                &&& (e.0 is Decode ==> frame_consumed(rest, fin) && first_frame_view::<M>(
                    rest,
                ) is None)
            },
    }
}

/// Contract of the I2C transaction operations.
pub open spec fn i2c_post(
    r: Result<u8, TargetI2cError>,
    inc: Seq<u8>,
    fin: Seq<u8>,
    sent0: Seq<u8>,
    sent1: Seq<u8>,
    mode: DmaMode,
    data: u8,
) -> bool {
    let req = message_frame::<HostToTarget>(
        crate::messages::HostToTargetView::StartI2cTransaction {
            mode,
            address: I2C_SLAVE_ADDRESS,
            data,
        },
    );
    match r {
        Ok(b) => {
            &&& sent1 == sent0 + req
            &&& frame_consumed(inc, fin)
            &&& first_frame_view::<TargetToHost>(inc) matches Some(v) && i2c_reply(v) == Some(b)
        },
        Err(TargetI2cError::Send(_)) => sent1 == sent0 && fin == inc,
        Err(TargetI2cError::Receive(e)) => {
            &&& sent1 == sent0 + req
            &&& (e.0 is Io ==> io_partial(inc, fin))
            &&& (e.0 is Decode ==> frame_consumed(inc, fin) && first_frame_view::<TargetToHost>(
                inc,
            ) is None)
        },
        Err(TargetI2cError::UnexpectedMessage) => {
            &&& sent1 == sent0 + req
            &&& frame_consumed(inc, fin)
            &&& first_frame_view::<TargetToHost>(inc) matches Some(v) && i2c_reply(v) is None
        },
    }
}

/// Contract of the SPI transaction operations.
pub open spec fn spi_post(
    r: Result<u8, TargetSpiError>,
    inc: Seq<u8>,
    fin: Seq<u8>,
    sent0: Seq<u8>,
    sent1: Seq<u8>,
    mode: DmaMode,
    data: u8,
) -> bool {
    let req = message_frame::<HostToTarget>(
        crate::messages::HostToTargetView::StartSpiTransaction { mode, data },
    );
    match r {
        Ok(b) => {
            &&& sent1 == sent0 + req
            &&& frame_consumed(inc, fin)
            &&& first_frame_view::<TargetToHost>(inc) matches Some(v) && spi_reply(v) == Some(b)
        },
        Err(TargetSpiError::Send(_)) => sent1 == sent0 && fin == inc,
        Err(TargetSpiError::Receive(e)) => {
            &&& sent1 == sent0 + req
            &&& (e.0 is Io ==> io_partial(inc, fin))
            &&& (e.0 is Decode ==> frame_consumed(inc, fin) && first_frame_view::<TargetToHost>(
                inc,
            ) is None)
        },
        Err(TargetSpiError::UnexpectedMessage) => {
            &&& sent1 == sent0 + req
            &&& frame_consumed(inc, fin)
            &&& first_frame_view::<TargetToHost>(inc) matches Some(v) && spi_reply(v) is None
        },
    }
}

} // verus!
