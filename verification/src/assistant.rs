//! The test suite's connection to the test assistant.
//!
//! The assistant drives the target's input pins, feeds its USARTs, and
//! reports what it observes on the target's output pins and transmissions.

use vstd::prelude::*;

use crate::conn::Conn;
use crate::conn::ConnReceiveError;
use crate::conn::ConnSendError;
use crate::conn::first_frame_view;
use crate::conn::frame_consumed;
use crate::conn::io_partial;
use crate::pin::Level;
use crate::pin::SetLevel;
use crate::pins::Pin;
use crate::pins::ReadLevelError;
use crate::pins::WrapSetLevel;
use crate::port::Port;
use crate::protocol::AssistantToHost;
use crate::protocol::HostToAssistant;
use crate::protocol::InputPin;
use crate::protocol::OutputPin;
use crate::protocol::UsartMode;
use crate::search::contains_bytes;
use crate::wait::UsartWaitError;
use crate::wait::drained_unexpected;
use crate::wait::drained_usart;
use crate::wait::wait_for_usart;
use crate::wire::message_frame;

verus! {

/// Smallest and largest period observed between changes of a monitored
/// signal, in milliseconds.
#[derive(Clone, Copy, Debug, PartialEq, Eq, Structural)]
pub struct GpioPeriodMeasurement {
    pub min: u64,
    pub max: u64,
}

/// Error waiting for bytes from the target, through the assistant.
#[derive(Clone, Copy, Debug, PartialEq, Eq, Structural)]
pub enum AssistantUsartWaitError {
    Receive(ConnReceiveError),
    Timeout,
    UnexpectedMessage,
}

/// Error while expecting silence from the target.
#[derive(Clone, Copy, Debug, PartialEq, Eq, Structural)]
pub enum AssistantExpectNothingError {
    Receive(ConnReceiveError),
    UnexpectedMessage,
}

/// Any failure of the assistant's API.
#[derive(Clone, Copy, Debug, PartialEq, Eq, Structural)]
pub enum AssistantError {
    ExpectNothing(AssistantExpectNothingError),
    PinRead(ReadLevelError),
    SetPinHigh(ConnSendError),
    SetPinLow(ConnSendError),
    UsartSend(ConnSendError),
    UsartWait(AssistantUsartWaitError),
}

/// The framed command that sets one of the assistant's output pins.
pub open spec fn set_pin_frame(pin: OutputPin, level: Level) -> Seq<u8> {
    message_frame::<HostToAssistant>(
        <HostToAssistant as WrapSetLevel<OutputPin>>::set_level_msg(SetLevel { pin, level }),
    )
}

/// `n` copies of `s`, concatenated.
pub open spec fn repeated(s: Seq<u8>, n: nat) -> Seq<u8>
    decreases n,
{
    if n == 0 {
        Seq::empty()
    } else {
        repeated(s, (n - 1) as nat) + s
    }
}

/// The framed request that reads the monitored GPIO pin.
pub open spec fn blue_read_frame() -> Seq<u8> {
    message_frame::<HostToAssistant>(
        <HostToAssistant as crate::pins::WrapReadLevel<InputPin>>::read_level_msg(
            crate::pin::ReadLevel { pin: InputPin::Blue },
        ),
    )
}

/// What draining `k` read replies for the monitored GPIO pin leaves: the
/// (level, period) readings in order, and the rest of the stream. `None`
/// when the stream's first `k` frames are not all such replies.
pub open spec fn drained_readings(inc: Seq<u8>, k: nat) -> Option<
    (Seq<(Level, Option<u32>)>, Seq<u8>),
>
    decreases k,
{
    if k == 0 {
        Some((Seq::empty(), inc))
    } else {
        match drained_readings(inc, (k - 1) as nat) {
            Option::None => None,
            Option::Some((readings, rest)) => {
                if crate::conn::first_zero(rest) >= 0 {
                    let f = rest.take(crate::conn::first_zero(rest) + 1);
                    let rest2 = rest.skip(crate::conn::first_zero(rest) + 1);
                    match crate::wire::dec_frame::<AssistantToHost>(f) {
                        Option::None => None,
                        Option::Some(v) => match <AssistantToHost as crate::pins::ReadLevelReply<
                            InputPin,
                        >>::read_result(v) {
                            Option::None => None,
                            Option::Some(rlr) => {
                                if rlr.pin == InputPin::Blue {
                                    Some(
                                        (
                                            readings.push((rlr.level, rlr.period_ms)),
                                            rest2,
                                        ),
                                    )
                                } else {
                                    None
                                }
                            }
                        },
                    }
                } else {
                    None
                }
            }
        }
    }
}

/// Extends `acc` with one more measured period.
pub open spec fn merge_period(acc: Option<(u64, u64)>, p: u64) -> (u64, u64) {
    match acc {
        Option::None => (p, p),
        Option::Some((mn, mx)) => (
            if p < mn {
                p
            } else {
                mn
            },
            if p > mx {
                p
            } else {
                mx
            },
        ),
    }
}

/// The measurement fold: the first reading fixes the starting level; each
/// later reading that changes the level and carries a period extends the
/// running minimum and maximum. Yields the level last seen and the bounds,
/// if any change carried a period.
pub open spec fn gpio_fold(readings: Seq<(Level, Option<u32>)>) -> (
    Level,
    Option<(u64, u64)>,
)
    decreases readings.len(),
{
    if readings.len() == 0 {
        (Level::High, None)
    } else if readings.len() == 1 {
        (readings[0].0, None)
    } else {
        let prev = gpio_fold(readings.drop_last());
        let last = readings.last();
        if last.0 == prev.0 {
            prev
        } else {
            match last.1 {
                Option::Some(p) => (last.0, Some(merge_period(prev.1, p as u64))),
                Option::None => (last.0, prev.1),
            }
        }
    }
}

/// After draining `k` whole readings, the next read failed as `e` says.
pub open spec fn measure_read_failed(
    inc: Seq<u8>,
    fin: Seq<u8>,
    sent0: Seq<u8>,
    sent1: Seq<u8>,
    e: ReadLevelError,
    samples: u32,
) -> bool {
    exists|k: nat|
        {
            &&& k <= samples
            &&& (#[trigger] drained_readings(inc, k)) matches Some((readings, rest))
            &&& crate::pins::read_level_post::<InputPin, HostToAssistant, AssistantToHost>(
                Err(e),
                InputPin::Blue,
                rest,
                fin,
                sent0 + repeated(blue_read_frame(), k),
                sent1,
            )
        }
}

/// The connection to the test assistant.
pub struct Assistant<P: Port> {
    conn: Conn<P>,
    red_led: Pin<OutputPin>,
    green_led: Pin<InputPin>,
    blue_led: Pin<InputPin>,
    cts: Pin<OutputPin>,
    rts: Pin<InputPin>,
}

impl<P: Port> Assistant<P> {
    /// Bytes that arrived from the assistant and were not yet consumed.
    pub closed spec fn incoming(&self) -> Seq<u8> {
        self.conn.incoming()
    }

    /// Bytes sent to the assistant so far.
    pub closed spec fn sent(&self) -> Seq<u8> {
        self.conn.sent()
    }

    /// The port clock's reading, in milliseconds.
    pub closed spec fn now(&self) -> u64 {
        self.conn.now()
    }

    /// The pin handles this API drives and reads.
    pub closed spec fn pins_wf(&self) -> bool {
        &&& self.red_led.id() == OutputPin::Red
        &&& self.green_led.id() == InputPin::Green
        &&& self.blue_led.id() == InputPin::Blue
        &&& self.cts.id() == OutputPin::Cts
        &&& self.rts.id() == InputPin::Rts
    }

    /// Wraps an open connection to the assistant.
    pub fn new(conn: Conn<P>) -> (a: Assistant<P>)
        ensures
            a.incoming() == conn.incoming(),
            a.sent() == conn.sent(),
            a.pins_wf(),
    {
        Assistant {
            conn,
            red_led: Pin::new(OutputPin::Red),
            green_led: Pin::new(InputPin::Green),
            blue_led: Pin::new(InputPin::Blue),
            cts: Pin::new(OutputPin::Cts),
            rts: Pin::new(InputPin::Rts),
        }
    }

    /// Hands the connection back, consuming the handle.
    pub fn into_conn(self) -> (c: Conn<P>)
        ensures
            c.incoming() == self.incoming(),
            c.sent() == self.sent(),
    {
        self.conn
    }

    /// Instructs the assistant to drive the target's input pin high.
    pub fn set_pin_high(&mut self) -> (r: Result<(), AssistantError>)
        requires
            old(self).pins_wf(),
        ensures
            final(self).pins_wf(),
            final(self).incoming() == old(self).incoming(),
            r is Ok ==> final(self).sent() == old(self).sent() + set_pin_frame(
                OutputPin::Red,
                Level::High,
            ),
            r is Err ==> final(self).sent() == old(self).sent() && r matches Err(
                AssistantError::SetPinHigh(_),
            ),
    {
        match self.red_led.set_level::<P, HostToAssistant>(Level::High, &mut self.conn) {
            Ok(()) => Ok(()),
            Err(e) => Err(AssistantError::SetPinHigh(e)),
        }
    }

    /// Instructs the assistant to drive the target's input pin low.
    pub fn set_pin_low(&mut self) -> (r: Result<(), AssistantError>)
        requires
            old(self).pins_wf(),
        ensures
            final(self).pins_wf(),
            final(self).incoming() == old(self).incoming(),
            r is Ok ==> final(self).sent() == old(self).sent() + set_pin_frame(
                OutputPin::Red,
                Level::Low,
            ),
            r is Err ==> final(self).sent() == old(self).sent() && r matches Err(
                AssistantError::SetPinLow(_),
            ),
    {
        match self.red_led.set_level::<P, HostToAssistant>(Level::Low, &mut self.conn) {
            Ok(()) => Ok(()),
            Err(e) => Err(AssistantError::SetPinLow(e)),
        }
    }

    /// Deasserts CTS towards the target (drives the line high).
    pub fn disable_cts(&mut self) -> (r: Result<(), AssistantError>)
        requires
            old(self).pins_wf(),
        ensures
            final(self).pins_wf(),
            final(self).incoming() == old(self).incoming(),
            r is Ok ==> final(self).sent() == old(self).sent() + set_pin_frame(
                OutputPin::Cts,
                Level::High,
            ),
            r is Err ==> final(self).sent() == old(self).sent(),
    {
        match self.cts.set_level::<P, HostToAssistant>(Level::High, &mut self.conn) {
            Ok(()) => Ok(()),
            Err(e) => Err(AssistantError::SetPinHigh(e)),
        }
    }

    /// Asserts CTS towards the target (drives the line low).
    pub fn enable_cts(&mut self) -> (r: Result<(), AssistantError>)
        requires
            old(self).pins_wf(),
        ensures
            final(self).pins_wf(),
            final(self).incoming() == old(self).incoming(),
            r is Ok ==> final(self).sent() == old(self).sent() + set_pin_frame(
                OutputPin::Cts,
                Level::Low,
            ),
            r is Err ==> final(self).sent() == old(self).sent(),
    {
        match self.cts.set_level::<P, HostToAssistant>(Level::Low, &mut self.conn) {
            Ok(()) => Ok(()),
            Err(e) => Err(AssistantError::SetPinLow(e)),
        }
    }

    /// Whether the assistant reads the target's GPIO pin as high.
    pub fn pin_is_high(&mut self) -> (r: Result<bool, AssistantError>)
        requires
            old(self).pins_wf(),
        ensures
            final(self).pins_wf(),
            match r {
                Ok(high) => exists|level: Level, period: Option<u32>|
                    {
                        &&& #[trigger] crate::pins::read_level_post::<
                            InputPin,
                            HostToAssistant,
                            AssistantToHost,
                        >(
                            Ok((level, period)),
                            InputPin::Green,
                            old(self).incoming(),
                            final(self).incoming(),
                            old(self).sent(),
                            final(self).sent(),
                        )
                        &&& high == (level == Level::High)
                    },
                Err(AssistantError::PinRead(e)) => crate::pins::read_level_post::<
                    InputPin,
                    HostToAssistant,
                    AssistantToHost,
                >(
                    Err(e),
                    InputPin::Green,
                    old(self).incoming(),
                    final(self).incoming(),
                    old(self).sent(),
                    final(self).sent(),
                ),
                Err(_) => false,
            },
    {
        match self.green_led.read_level::<P, HostToAssistant, AssistantToHost>(
            10,
            &mut self.conn,
        ) {
            Ok((level, period)) => {
                proof {
                    assert(crate::pins::read_level_post::<
                        InputPin,
                        HostToAssistant,
                        AssistantToHost,
                    >(
                        Ok((level, period)),
                        InputPin::Green,
                        old(self).incoming(),
                        self.incoming(),
                        old(self).sent(),
                        self.sent(),
                    ));
                }
                Ok(level == Level::High)
            }
            Err(e) => Err(AssistantError::PinRead(e)),
        }
    }

    /// Whether the assistant reads the target's GPIO pin as low.
    pub fn pin_is_low(&mut self) -> (r: Result<bool, AssistantError>)
        requires
            old(self).pins_wf(),
        ensures
            final(self).pins_wf(),
            match r {
                Ok(low) => exists|level: Level, period: Option<u32>|
                    {
                        &&& #[trigger] crate::pins::read_level_post::<
                            InputPin,
                            HostToAssistant,
                            AssistantToHost,
                        >(
                            Ok((level, period)),
                            InputPin::Green,
                            old(self).incoming(),
                            final(self).incoming(),
                            old(self).sent(),
                            final(self).sent(),
                        )
                        &&& low == (level == Level::Low)
                    },
                Err(AssistantError::PinRead(e)) => crate::pins::read_level_post::<
                    InputPin,
                    HostToAssistant,
                    AssistantToHost,
                >(
                    Err(e),
                    InputPin::Green,
                    old(self).incoming(),
                    final(self).incoming(),
                    old(self).sent(),
                    final(self).sent(),
                ),
                Err(_) => false,
            },
    {
        match self.green_led.read_level::<P, HostToAssistant, AssistantToHost>(
            10,
            &mut self.conn,
        ) {
            Ok((level, period)) => {
                proof {
                    assert(crate::pins::read_level_post::<
                        InputPin,
                        HostToAssistant,
                        AssistantToHost,
                    >(
                        Ok((level, period)),
                        InputPin::Green,
                        old(self).incoming(),
                        self.incoming(),
                        old(self).sent(),
                        self.sent(),
                    ));
                }
                Ok(level == Level::Low)
            }
            Err(e) => Err(AssistantError::PinRead(e)),
        }
    }

    /// Whether the target asserts RTS (drives the line low).
    pub fn wait_for_rts(&mut self) -> (r: Result<bool, AssistantError>)
        requires
            old(self).pins_wf(),
        ensures
            final(self).pins_wf(),
            match r {
                Ok(asserted) => exists|level: Level, period: Option<u32>|
                    {
                        &&& #[trigger] crate::pins::read_level_post::<
                            InputPin,
                            HostToAssistant,
                            AssistantToHost,
                        >(
                            Ok((level, period)),
                            InputPin::Rts,
                            old(self).incoming(),
                            final(self).incoming(),
                            old(self).sent(),
                            final(self).sent(),
                        )
                        &&& asserted == (level == Level::Low)
                    },
                Err(AssistantError::PinRead(e)) => crate::pins::read_level_post::<
                    InputPin,
                    HostToAssistant,
                    AssistantToHost,
                >(
                    Err(e),
                    InputPin::Rts,
                    old(self).incoming(),
                    final(self).incoming(),
                    old(self).sent(),
                    final(self).sent(),
                ),
                Err(_) => false,
            },
    {
        match self.rts.read_level::<P, HostToAssistant, AssistantToHost>(10, &mut self.conn) {
            Ok((level, period)) => {
                proof {
                    assert(crate::pins::read_level_post::<
                        InputPin,
                        HostToAssistant,
                        AssistantToHost,
                    >(
                        Ok((level, period)),
                        InputPin::Rts,
                        old(self).incoming(),
                        self.incoming(),
                        old(self).sent(),
                        self.sent(),
                    ));
                }
                Ok(level == Level::Low)
            }
            Err(e) => Err(AssistantError::PinRead(e)),
        }
    }

    /// Instructs the assistant to send `data` to the target over the USART.
    pub fn send_to_target_usart(&mut self, data: &[u8]) -> (r: Result<(), AssistantError>)
        requires
            old(self).pins_wf(),
            data@.len() <= u32::MAX,
        ensures
            final(self).pins_wf(),
            final(self).incoming() == old(self).incoming(),
            r is Ok ==> final(self).sent() == old(self).sent() + message_frame::<HostToAssistant>(
                crate::protocol::HostToAssistantView::SendUsart {
                    mode: UsartMode::Regular,
                    data: data@,
                },
            ),
            r is Err ==> final(self).sent() == old(self).sent(),
    {
        self.send_to_target_usart_mode(data, UsartMode::Regular)
    }

    /// Instructs the assistant to send `data` to the target's USART through
    /// DMA.
    pub fn send_to_target_usart_dma(&mut self, data: &[u8]) -> (r: Result<(), AssistantError>)
        requires
            old(self).pins_wf(),
            data@.len() <= u32::MAX,
        ensures
            final(self).pins_wf(),
            final(self).incoming() == old(self).incoming(),
            r is Ok ==> final(self).sent() == old(self).sent() + message_frame::<HostToAssistant>(
                crate::protocol::HostToAssistantView::SendUsart {
                    mode: UsartMode::Dma,
                    data: data@,
                },
            ),
            r is Err ==> final(self).sent() == old(self).sent(),
    {
        self.send_to_target_usart_mode(data, UsartMode::Dma)
    }

    /// Instructs the assistant to send `data` to the target's synchronous
    /// USART.
    pub fn send_to_target_usart_sync(&mut self, data: &[u8]) -> (r: Result<(), AssistantError>)
        requires
            old(self).pins_wf(),
            data@.len() <= u32::MAX,
        ensures
            final(self).pins_wf(),
            final(self).incoming() == old(self).incoming(),
            r is Ok ==> final(self).sent() == old(self).sent() + message_frame::<HostToAssistant>(
                crate::protocol::HostToAssistantView::SendUsart {
                    mode: UsartMode::Sync,
                    data: data@,
                },
            ),
            r is Err ==> final(self).sent() == old(self).sent(),
    {
        self.send_to_target_usart_mode(data, UsartMode::Sync)
    }

    fn send_to_target_usart_mode(&mut self, data: &[u8], mode: UsartMode) -> (r: Result<
        (),
        AssistantError,
    >)
        requires
            old(self).pins_wf(),
            data@.len() <= u32::MAX,
        ensures
            final(self).pins_wf(),
            final(self).incoming() == old(self).incoming(),
            r is Ok ==> final(self).sent() == old(self).sent() + message_frame::<HostToAssistant>(
                crate::protocol::HostToAssistantView::SendUsart { mode, data: data@ },
            ),
            r is Err ==> final(self).sent() == old(self).sent(),
    {
        let message = HostToAssistant::SendUsart {
            mode,
            data: vstd::slice::slice_to_vec(data),
        };
        match self.conn.send(&message) {
            Ok(()) => Ok(()),
            Err(e) => Err(AssistantError::UsartSend(e)),
        }
    }

    /// Waits until the assistant has reported receiving `data` from the
    /// target over the USART.
    pub fn receive_from_target_usart(&mut self, data: &[u8], timeout_ms: u64) -> (r: Result<
        Vec<u8>,
        AssistantError,
    >)
        requires
            old(self).pins_wf(),
        ensures
            final(self).pins_wf(),
            final(self).sent() == old(self).sent(),
            r matches Err(AssistantError::UsartWait(AssistantUsartWaitError::Timeout))
                ==> final(self).now() > old(self).now() + timeout_ms,
            r matches Err(AssistantError::UsartWait(AssistantUsartWaitError::Receive(e)))
                && e.timed_out() ==> final(self).now() >= old(self).now() + timeout_ms
                || final(self).now() == u64::MAX,
            data@.len() == 0 ==> (r matches Ok(out) && out@ == Seq::<u8>::empty()
                && final(self).incoming() == old(self).incoming()),
            assistant_wait_post(
                r,
                old(self).incoming(),
                final(self).incoming(),
                data@,
                UsartMode::Regular,
            ),
    {
        self.receive_from_target_usart_inner(data, timeout_ms, UsartMode::Regular)
    }

    /// Waits until the assistant has reported receiving `data` from the
    /// target in synchronous mode.
    pub fn receive_from_target_usart_sync(&mut self, data: &[u8], timeout_ms: u64) -> (r: Result<
        Vec<u8>,
        AssistantError,
    >)
        requires
            old(self).pins_wf(),
        ensures
            final(self).pins_wf(),
            final(self).sent() == old(self).sent(),
            r matches Err(AssistantError::UsartWait(AssistantUsartWaitError::Timeout))
                ==> final(self).now() > old(self).now() + timeout_ms,
            r matches Err(AssistantError::UsartWait(AssistantUsartWaitError::Receive(e)))
                && e.timed_out() ==> final(self).now() >= old(self).now() + timeout_ms
                || final(self).now() == u64::MAX,
            data@.len() == 0 ==> (r matches Ok(out) && out@ == Seq::<u8>::empty()
                && final(self).incoming() == old(self).incoming()),
            assistant_wait_post(
                r,
                old(self).incoming(),
                final(self).incoming(),
                data@,
                UsartMode::Sync,
            ),
    {
        self.receive_from_target_usart_inner(data, timeout_ms, UsartMode::Sync)
    }

    /// Waits until the assistant has reported receiving `data` from the
    /// target in the given mode.
    pub fn receive_from_target_usart_inner(
        &mut self,
        data: &[u8],
        timeout_ms: u64,
        expected_mode: UsartMode,
    ) -> (r: Result<Vec<u8>, AssistantError>)
        requires
            old(self).pins_wf(),
        ensures
            final(self).pins_wf(),
            final(self).sent() == old(self).sent(),
            r matches Err(AssistantError::UsartWait(AssistantUsartWaitError::Timeout))
                ==> final(self).now() > old(self).now() + timeout_ms,
            r matches Err(AssistantError::UsartWait(AssistantUsartWaitError::Receive(e)))
                && e.timed_out() ==> final(self).now() >= old(self).now() + timeout_ms
                || final(self).now() == u64::MAX,
            data@.len() == 0 ==> (r matches Ok(out) && out@ == Seq::<u8>::empty()
                && final(self).incoming() == old(self).incoming()),
            assistant_wait_post(
                r,
                old(self).incoming(),
                final(self).incoming(),
                data@,
                expected_mode,
            ),
    {
        match wait_for_usart::<P, AssistantToHost>(
            &mut self.conn,
            data,
            timeout_ms,
            expected_mode,
        ) {
            Ok(out) => Ok(out),
            Err(UsartWaitError::Receive(e)) => Err(
                AssistantError::UsartWait(AssistantUsartWaitError::Receive(e)),
            ),
            Err(UsartWaitError::Timeout) => Err(
                AssistantError::UsartWait(AssistantUsartWaitError::Timeout),
            ),
            Err(UsartWaitError::UnexpectedMessage) => Err(
                AssistantError::UsartWait(AssistantUsartWaitError::UnexpectedMessage),
            ),
        }
    }

    /// Measures the period of changes in the monitored GPIO signal: reads
    /// the pin once to learn the starting level, then `samples` more times,
    /// and returns the smallest and largest period reported on observed
    /// level changes.
    ///
    /// Exactly `1 + samples` read requests go out on success; the drained
    /// replies, folded by [`gpio_fold`], yield the result. When every read
    /// succeeded but no level change carried a measured period, the outcome
    /// is reported as a timeout.
    #[verifier::spinoff_prover]
    #[verifier::rlimit(90)]
    pub fn measure_gpio_period(&mut self, samples: u32, timeout_ms: u64) -> (r: Result<
        GpioPeriodMeasurement,
        AssistantError,
    >)
        requires
            old(self).pins_wf(),
            samples >= 1,
        ensures
            final(self).pins_wf(),
            ({
                let inc = old(self).incoming();
                let fin = final(self).incoming();
                let sent0 = old(self).sent();
                let sent1 = final(self).sent();
                match r {
                    Ok(m) => {
                        &&& m.min <= m.max
                        &&& sent1 == sent0 + repeated(blue_read_frame(), (samples + 1) as nat)
                        &&& drained_readings(inc, (samples + 1) as nat) matches Some(
                            (readings, rest),
                        ) && fin == rest && gpio_fold(readings).1 == Some((m.min, m.max))
                    },
                    Err(AssistantError::PinRead(e)) => match e {
                        ReadLevelError::Timeout => {
                            &&& sent1 == sent0 + repeated(
                                blue_read_frame(),
                                (samples + 1) as nat,
                            )
                            &&& drained_readings(inc, (samples + 1) as nat) matches Some(
                                (readings, rest),
                            ) && fin == rest && gpio_fold(readings).1 is None
                        },
                        _ => measure_read_failed(inc, fin, sent0, sent1, e, samples),
                    },
                    Err(_) => false,
                }
            }),
    {
        let ghost inc = self.conn.incoming();
        let ghost sent0 = self.conn.sent();
        let mut measurement: Option<GpioPeriodMeasurement> = None;
        proof {
            assert(sent0 + repeated(blue_read_frame(), 0) =~= sent0);
        }
        let first: (Level, Option<u32>) = match self.blue_led.read_level::<
            P,
            HostToAssistant,
            AssistantToHost,
        >(timeout_ms, &mut self.conn) {
            Ok(x) => x,
            Err(e) => {
                proof {
                    assert(crate::pins::read_level_post::<
                        InputPin,
                        HostToAssistant,
                        AssistantToHost,
                    >(
                        Err(e),
                        InputPin::Blue,
                        inc,
                        self.conn.incoming(),
                        sent0 + repeated(blue_read_frame(), 0),
                        self.conn.sent(),
                    ));
                    assert(measure_read_failed(
                        inc,
                        self.conn.incoming(),
                        sent0,
                        self.conn.sent(),
                        e,
                        samples,
                    ));
                }
                return Err(AssistantError::PinRead(e));
            }
        };
        let mut state: Level = first.0;
        let ghost mut readings: Seq<(Level, Option<u32>)> = Seq::empty().push(first);
        proof {
            assert(drained_readings(inc, 0) == Some(
                (Seq::<(Level, Option<u32>)>::empty(), inc),
            ));
            assert(drained_readings(inc, 1) matches Some((rs, rest)) && rs =~= readings && rest
                == self.conn.incoming());
            assert(drained_readings(inc, 1) == Some((readings, self.conn.incoming())));
            assert(readings[0] == first);
            assert(gpio_fold(readings).0 == state);
            assert(gpio_fold(readings).1 is None);
        }
        let mut i: u32 = 0;
        while i < samples
            invariant
                self.pins_wf(),
                i <= samples,
                inc == old(self).incoming(),
                readings.len() == 1 + i,
                drained_readings(inc, (1 + i) as nat) == Some((readings, self.conn.incoming())),
                self.conn.sent() == sent0 + repeated(blue_read_frame(), (1 + i) as nat),
                sent0 == old(self).sent(),
                gpio_fold(readings).0 == state,
                match measurement {
                    Some(m) => gpio_fold(readings).1 == Some((m.min, m.max)) && m.min <= m.max,
                    None => gpio_fold(readings).1 is None,
                },
            decreases samples - i,
        {
            let ghost rest0 = self.conn.incoming();
            let (new_state, period_ms) = match self.blue_led.read_level::<
                P,
                HostToAssistant,
                AssistantToHost,
            >(timeout_ms, &mut self.conn) {
                Ok(x) => x,
                Err(e) => {
                    proof {
                        assert(crate::pins::read_level_post::<
                            InputPin,
                            HostToAssistant,
                            AssistantToHost,
                        >(
                            Err(e),
                            InputPin::Blue,
                            rest0,
                            self.conn.incoming(),
                            sent0 + repeated(blue_read_frame(), (1 + i) as nat),
                            self.conn.sent(),
                        ));
                        assert(measure_read_failed(
                            inc,
                            self.conn.incoming(),
                            sent0,
                            self.conn.sent(),
                            e,
                            samples,
                        ));
                    }
                    return Err(AssistantError::PinRead(e));
                }
            };
            proof {
                let next = readings.push((new_state, period_ms));
                assert(drained_readings(inc, (2 + i) as nat) matches Some((rs, rest)) && rs
                    =~= next && rest == self.conn.incoming());
                assert(drained_readings(inc, (2 + i) as nat) == Some(
                    (next, self.conn.incoming()),
                ));
                assert(next.drop_last() =~= readings);
                assert(next.last() == (new_state, period_ms));
                readings = next;
            }
            if new_state != state {
                state = new_state;
                match period_ms {
                    Some(period_ms) => {
                        let period: u64 = period_ms as u64;
                        measurement = match measurement {
                            Some(m) => Some(
                                GpioPeriodMeasurement {
                                    min: if period < m.min {
                                        period
                                    } else {
                                        m.min
                                    },
                                    max: if period > m.max {
                                        period
                                    } else {
                                        m.max
                                    },
                                },
                            ),
                            None => Some(GpioPeriodMeasurement { min: period, max: period }),
                        };
                    }
                    None => {}
                }
            }
            i = i + 1;
        }
        match measurement {
            Some(m) => {
                proof {
                    assert(gpio_fold(readings).1 matches Some((mn, mx)) && mn <= mx);
                }
                Ok(m)
            }
            None => Err(AssistantError::PinRead(ReadLevelError::Timeout)),
        }
    }

    /// Expects to hear nothing from the target within the given time.
    ///
    /// Succeeds exactly when the wait passed without a whole frame arriving;
    /// any message that does arrive is reported as unexpected.
    pub fn expect_nothing_from_target(&mut self, timeout_ms: u64) -> (r: Result<
        (),
        AssistantError,
    >)
        requires
            old(self).pins_wf(),
        ensures
            final(self).pins_wf(),
            final(self).sent() == old(self).sent(),
            ({
                let inc = old(self).incoming();
                let fin = final(self).incoming();
                match r {
                    Ok(()) => io_partial(inc, fin) && (final(self).now() >= old(self).now()
                        + timeout_ms || final(self).now() == u64::MAX),
                    Err(AssistantError::ExpectNothing(e)) => match e {
                        AssistantExpectNothingError::UnexpectedMessage => frame_consumed(inc, fin)
                            && first_frame_view::<AssistantToHost>(inc) is Some,
                        AssistantExpectNothingError::Receive(e2) => !e2.timed_out(),
                    },
                    Err(_) => false,
                }
            }),
    {
        match self.expect_nothing_from_target_inner(timeout_ms) {
            Ok(()) => Ok(()),
            Err(e) => Err(AssistantError::ExpectNothing(e)),
        }
    }

    fn expect_nothing_from_target_inner(&mut self, timeout_ms: u64) -> (r: Result<
        (),
        AssistantExpectNothingError,
    >)
        requires
            old(self).pins_wf(),
        ensures
            final(self).pins_wf(),
            final(self).sent() == old(self).sent(),
            ({
                let inc = old(self).incoming();
                let fin = final(self).incoming();
                match r {
                    Ok(()) => io_partial(inc, fin) && (final(self).now() >= old(self).now()
                        + timeout_ms || final(self).now() == u64::MAX),
                    Err(AssistantExpectNothingError::UnexpectedMessage) => frame_consumed(inc, fin)
                        && first_frame_view::<AssistantToHost>(inc) is Some,
                    Err(AssistantExpectNothingError::Receive(e)) => !e.timed_out(),
                }
            }),
    {
        match self.conn.receive::<AssistantToHost>(timeout_ms) {
            Ok(_) => Err(AssistantExpectNothingError::UnexpectedMessage),
            Err(e) => {
                if e.is_timeout() {
                    Ok(())
                } else {
                    Err(AssistantExpectNothingError::Receive(e))
                }
            }
        }
    }
}

/// Contract of the wait-for-reception operations on the assistant link.
pub open spec fn assistant_wait_post(
    r: Result<Vec<u8>, AssistantError>,
    inc: Seq<u8>,
    fin: Seq<u8>,
    data: Seq<u8>,
    mode: UsartMode,
) -> bool {
    match r {
        Ok(out) => {
            &&& contains_bytes(out@, data)
            &&& exists|k: nat|
                #[trigger] drained_usart::<AssistantToHost>(inc, mode, k) == Some((out@, fin))
        },
        Err(AssistantError::UsartWait(AssistantUsartWaitError::Timeout)) => exists|k: nat|
            (#[trigger] drained_usart::<AssistantToHost>(inc, mode, k)) matches Some(
                (bytes, rest),
            ) && !contains_bytes(bytes, data) && fin == rest,
        Err(AssistantError::UsartWait(AssistantUsartWaitError::UnexpectedMessage)) => exists|
            k: nat,
        | drained_unexpected::<AssistantToHost>(inc, mode, k, fin),
        Err(AssistantError::UsartWait(AssistantUsartWaitError::Receive(e))) => exists|k: nat|
            {
                &&& (#[trigger] drained_usart::<AssistantToHost>(inc, mode, k)) matches Some(
                    (bytes, rest),
                )
                &&& (e.0 is Io ==> io_partial(rest, fin))
                &&& (e.0 is Decode ==> frame_consumed(rest, fin) && first_frame_view::<
                    AssistantToHost,
                >(rest) is None)
            },
        Err(_) => false,
    }
}

} // verus!
