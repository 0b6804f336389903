//! Messages exchanged between the host and the test target.
//!
//! The target is the device under test: the host commands it to transmit over
//! its USART, drive or report its GPIO pin, run timer interrupts, and start
//! I2C/SPI transactions, and the target reports bytes received, pin levels,
//! transaction replies and ADC readings.

use vstd::prelude::*;

use crate::pin::Level;
use crate::pin::ReadLevel;
use crate::pin::ReadLevelResult;
use crate::pin::SetLevel;
use crate::protocol::UsartMode;
use crate::wire::WireMessage;
use crate::wire::dec_bytes;
use crate::wire::dec_u16;
use crate::wire::dec_u32;
use crate::wire::dec_u8;
use crate::wire::enc_bytes;
use crate::wire::get_bytes;
use crate::wire::get_u16;
use crate::wire::get_u32;
use crate::wire::get_u8;
use crate::wire::le16;
use crate::wire::le32;
use crate::wire::lemma_dec_bytes;
use crate::wire::lemma_dec_u16;
use crate::wire::lemma_dec_u32;
use crate::wire::lemma_dec_u8;
use crate::wire::put_bytes;
use crate::wire::put_u16;
use crate::wire::put_u32;
use crate::wire::put_u8;

verus! {

/// Whether a peripheral transaction runs through DMA.
#[derive(Clone, Copy, Debug, PartialEq, Eq, Structural)]
pub enum DmaMode {
    Regular,
    Dma,
}

impl DmaMode {
    pub open spec fn enc(&self) -> Seq<u8> {
        match self {
            DmaMode::Regular => seq![0u8],
            DmaMode::Dma => seq![1u8],
        }
    }

    pub open spec fn dec(s: Seq<u8>) -> Option<(DmaMode, Seq<u8>)> {
        match dec_u8(s) {
            Option::None => None,
            Option::Some((b, r)) => {
                if b == 0 {
                    Some((DmaMode::Regular, r))
                } else if b == 1 {
                    Some((DmaMode::Dma, r))
                } else {
                    None
                }
            }
        }
    }

    pub fn put(&self, out: &mut Vec<u8>)
        ensures
            final(out)@ == old(out)@ + self.enc(),
    {
        match self {
            DmaMode::Regular => out.push(0u8),
            DmaMode::Dma => out.push(1u8),
        }
        assert(out@ =~= old(out)@ + self.enc());
    }

    pub fn get(buf: &[u8], pos: usize) -> (r: Option<(DmaMode, usize)>)
        requires
            pos <= buf@.len(),
        ensures
            match r {
                Some((v, p)) => {
                    &&& pos < p <= buf@.len()
                    &&& DmaMode::dec(buf@.skip(pos as int)) == Some((v, buf@.skip(p as int)))
                },
                None => DmaMode::dec(buf@.skip(pos as int)) is None,
            },
    {
        match get_u8(buf, pos) {
            None => None,
            Some((b, p)) => {
                if b == 0 {
                    Some((DmaMode::Regular, p))
                } else if b == 1 {
                    Some((DmaMode::Dma, p))
                } else {
                    None
                }
            }
        }
    }

    pub proof fn lemma_dec(&self, rest: Seq<u8>)
        ensures
            DmaMode::dec(self.enc() + rest) == Some((*self, rest)),
    {
        match self {
            DmaMode::Regular => lemma_dec_u8(0, rest),
            DmaMode::Dma => lemma_dec_u8(1, rest),
        }
    }
}

/// A message from the test suite on the host to the target.
#[derive(Clone, Debug, PartialEq, Eq)]
pub enum HostToTarget {
    /// Transmit the given bytes over the target's USART.
    SendUsart { mode: UsartMode, data: Vec<u8> },
    /// Ignore received USART data until this address is matched.
    WaitForAddress(u8),
    /// Drive the target's output pin.
    SetPin(SetLevel<()>),
    /// Report the current level of the target's input pin.
    ReadPin(ReadLevel<()>),
    /// Start the timer interrupt with the given period.
    StartTimerInterrupt { period_ms: u32 },
    /// Stop the timer interrupt.
    StopTimerInterrupt,
    /// Start an I2C transaction towards the attached slave.
    StartI2cTransaction { mode: DmaMode, address: u8, data: u8 },
    /// Start an SPI transaction towards the attached slave.
    StartSpiTransaction { mode: DmaMode, data: u8 },
    /// Report a reading of the analog input.
    ReadAdc,
}

/// Abstract value of a [`HostToTarget`] message.
pub enum HostToTargetView {
    SendUsart { mode: UsartMode, data: Seq<u8> },
    WaitForAddress(u8),
    SetPin(SetLevel<()>),
    ReadPin(ReadLevel<()>),
    StartTimerInterrupt { period_ms: u32 },
    StopTimerInterrupt,
    StartI2cTransaction { mode: DmaMode, address: u8, data: u8 },
    StartSpiTransaction { mode: DmaMode, data: u8 },
    ReadAdc,
}

impl View for HostToTarget {
    type V = HostToTargetView;

    open spec fn view(&self) -> HostToTargetView {
        match self {
            HostToTarget::SendUsart { mode, data } => HostToTargetView::SendUsart {
                mode: *mode,
                data: data@,
            },
            HostToTarget::WaitForAddress(a) => HostToTargetView::WaitForAddress(*a),
            HostToTarget::SetPin(sl) => HostToTargetView::SetPin(*sl),
            HostToTarget::ReadPin(rl) => HostToTargetView::ReadPin(*rl),
            HostToTarget::StartTimerInterrupt { period_ms } => {
                HostToTargetView::StartTimerInterrupt { period_ms: *period_ms }
            }
            HostToTarget::StopTimerInterrupt => HostToTargetView::StopTimerInterrupt,
            HostToTarget::StartI2cTransaction { mode, address, data } => {
                HostToTargetView::StartI2cTransaction {
                    mode: *mode,
                    address: *address,
                    data: *data,
                }
            }
            HostToTarget::StartSpiTransaction { mode, data } => {
                HostToTargetView::StartSpiTransaction { mode: *mode, data: *data }
            }
            HostToTarget::ReadAdc => HostToTargetView::ReadAdc,
        }
    }
}

impl WireMessage for HostToTarget {
    open spec fn wf(&self) -> bool {
        match self {
            HostToTarget::SendUsart { mode, data } => data@.len() <= u32::MAX,
            _ => true,
        }
    }

    open spec fn enc_view(v: HostToTargetView) -> Seq<u8> {
        match v {
            HostToTargetView::SendUsart { mode, data } => seq![0u8] + mode.enc() + enc_bytes(data),
            HostToTargetView::WaitForAddress(a) => seq![1u8] + seq![a],
            HostToTargetView::SetPin(sl) => seq![2u8] + sl.enc(),
            HostToTargetView::ReadPin(rl) => seq![3u8] + rl.enc(),
            HostToTargetView::StartTimerInterrupt { period_ms } => seq![4u8] + le32(period_ms),
            HostToTargetView::StopTimerInterrupt => seq![5u8],
            HostToTargetView::StartI2cTransaction { mode, address, data } => seq![6u8] + mode.enc()
                + seq![address, data],
            HostToTargetView::StartSpiTransaction { mode, data } => seq![7u8] + mode.enc()
                + seq![data],
            HostToTargetView::ReadAdc => seq![8u8],
        }
    }

    open spec fn dec(s: Seq<u8>) -> Option<HostToTargetView> {
        match dec_u8(s) {
            Option::None => None,
            Option::Some((d, r)) => {
                if d == 0 {
                    match UsartMode::dec(r) {
                        Option::None => None,
                        Option::Some((mode, r2)) => match dec_bytes(r2) {
                            Option::None => None,
                            Option::Some((data, r3)) => {
                                if r3.len() == 0 {
                                    Some(HostToTargetView::SendUsart { mode, data })
                                } else {
                                    None
                                }
                            }
                        },
                    }
                } else if d == 1 {
                    match dec_u8(r) {
                        Option::None => None,
                        Option::Some((a, r2)) => {
                            if r2.len() == 0 {
                                Some(HostToTargetView::WaitForAddress(a))
                            } else {
                                None
                            }
                        }
                    }
                } else if d == 2 {
                    match SetLevel::<()>::dec(r) {
                        Option::None => None,
                        Option::Some((sl, r2)) => {
                            if r2.len() == 0 {
                                Some(HostToTargetView::SetPin(sl))
                            } else {
                                None
                            }
                        }
                    }
                } else if d == 3 {
                    match ReadLevel::<()>::dec(r) {
                        Option::None => None,
                        Option::Some((rl, r2)) => {
                            if r2.len() == 0 {
                                Some(HostToTargetView::ReadPin(rl))
                            } else {
                                None
                            }
                        }
                    }
                } else if d == 4 {
                    match dec_u32(r) {
                        Option::None => None,
                        Option::Some((period_ms, r2)) => {
                            if r2.len() == 0 {
                                Some(HostToTargetView::StartTimerInterrupt { period_ms })
                            } else {
                                None
                            }
                        }
                    }
                } else if d == 5 {
                    if r.len() == 0 {
                        Some(HostToTargetView::StopTimerInterrupt)
                    } else {
                        None
                    }
                } else if d == 6 {
                    match DmaMode::dec(r) {
                        Option::None => None,
                        Option::Some((mode, r2)) => match dec_u8(r2) {
                            Option::None => None,
                            Option::Some((address, r3)) => match dec_u8(r3) {
                                Option::None => None,
                                Option::Some((data, r4)) => {
                                    if r4.len() == 0 {
                                        Some(
                                            HostToTargetView::StartI2cTransaction {
                                                mode,
                                                address,
                                                data,
                                            },
                                        )
                                    } else {
                                        None
                                    }
                                }
                            },
                        },
                    }
                } else if d == 7 {
                    match DmaMode::dec(r) {
                        Option::None => None,
                        Option::Some((mode, r2)) => match dec_u8(r2) {
                            Option::None => None,
                            Option::Some((data, r3)) => {
                                if r3.len() == 0 {
                                    Some(HostToTargetView::StartSpiTransaction { mode, data })
                                } else {
                                    None
                                }
                            }
                        },
                    }
                } else if d == 8 {
                    if r.len() == 0 {
                        Some(HostToTargetView::ReadAdc)
                    } else {
                        None
                    }
                } else {
                    None
                }
            }
        }
    }

    fn encode(&self, out: &mut Vec<u8>) {
        match self {
            HostToTarget::SendUsart { mode, data } => {
                put_u8(out, 0);
                mode.put(out);
                put_bytes(out, data.as_slice());
            }
            HostToTarget::WaitForAddress(a) => {
                put_u8(out, 1);
                put_u8(out, *a);
            }
            HostToTarget::SetPin(sl) => {
                put_u8(out, 2);
                sl.put(out);
            }
            HostToTarget::ReadPin(rl) => {
                put_u8(out, 3);
                rl.put(out);
            }
            HostToTarget::StartTimerInterrupt { period_ms } => {
                put_u8(out, 4);
                put_u32(out, *period_ms);
            }
            HostToTarget::StopTimerInterrupt => {
                put_u8(out, 5);
            }
            HostToTarget::StartI2cTransaction { mode, address, data } => {
                put_u8(out, 6);
                mode.put(out);
                put_u8(out, *address);
                put_u8(out, *data);
            }
            HostToTarget::StartSpiTransaction { mode, data } => {
                put_u8(out, 7);
                mode.put(out);
                put_u8(out, *data);
            }
            HostToTarget::ReadAdc => {
                put_u8(out, 8);
            }
        }
        assert(out@ =~= old(out)@ + Self::enc_view(self@));
    }

    fn decode(buf: &[u8]) -> (r: Option<Self>) {
        let ghost s = buf@;
        proof {
            assert(s.skip(0) =~= s);
        }
        let n = buf.len();
        match get_u8(buf, 0) {
            None => None,
            Some((d, p)) => {
                if d == 0 {
                    match UsartMode::get(buf, p) {
                        None => None,
                        Some((mode, p2)) => match get_bytes(buf, p2) {
                            None => None,
                            Some((data, p3)) => {
                                if p3 == n {
                                    proof {
                                        assert(s.skip(p3 as int) =~= Seq::<u8>::empty());
                                    }
                                    Some(HostToTarget::SendUsart { mode, data })
                                } else {
                                    None
                                }
                            }
                        },
                    }
                } else if d == 1 {
                    match get_u8(buf, p) {
                        None => None,
                        Some((a, p2)) => {
                            if p2 == n {
                                proof {
                                    assert(s.skip(p2 as int) =~= Seq::<u8>::empty());
                                }
                                Some(HostToTarget::WaitForAddress(a))
                            } else {
                                None
                            }
                        }
                    }
                } else if d == 2 {
                    match SetLevel::<()>::get(buf, p) {
                        None => None,
                        Some((sl, p2)) => {
                            if p2 == n {
                                proof {
                                    assert(s.skip(p2 as int) =~= Seq::<u8>::empty());
                                }
                                Some(HostToTarget::SetPin(sl))
                            } else {
                                None
                            }
                        }
                    }
                } else if d == 3 {
                    match ReadLevel::<()>::get(buf, p) {
                        None => None,
                        Some((rl, p2)) => {
                            if p2 == n {
                                proof {
                                    assert(s.skip(p2 as int) =~= Seq::<u8>::empty());
                                }
                                Some(HostToTarget::ReadPin(rl))
                            } else {
                                None
                            }
                        }
                    }
                } else if d == 4 {
                    match get_u32(buf, p) {
                        None => None,
                        Some((period_ms, p2)) => {
                            if p2 == n {
                                proof {
                                    assert(s.skip(p2 as int) =~= Seq::<u8>::empty());
                                }
                                Some(HostToTarget::StartTimerInterrupt { period_ms })
                            } else {
                                None
                            }
                        }
                    }
                } else if d == 5 {
                    if p == n {
                        proof {
                            assert(s.skip(p as int) =~= Seq::<u8>::empty());
                        }
                        Some(HostToTarget::StopTimerInterrupt)
                    } else {
                        None
                    }
                } else if d == 6 {
                    match DmaMode::get(buf, p) {
                        None => None,
                        Some((mode, p2)) => match get_u8(buf, p2) {
                            None => None,
                            Some((address, p3)) => match get_u8(buf, p3) {
                                None => None,
                                Some((data, p4)) => {
                                    if p4 == n {
                                        proof {
                                            assert(s.skip(p4 as int) =~= Seq::<u8>::empty());
                                        }
                                        Some(
                                            HostToTarget::StartI2cTransaction {
                                                mode,
                                                address,
                                                data,
                                            },
                                        )
                                    } else {
                                        None
                                    }
                                }
                            },
                        },
                    }
                } else if d == 7 {
                    match DmaMode::get(buf, p) {
                        None => None,
                        Some((mode, p2)) => match get_u8(buf, p2) {
                            None => None,
                            Some((data, p3)) => {
                                if p3 == n {
                                    proof {
                                        assert(s.skip(p3 as int) =~= Seq::<u8>::empty());
                                    }
                                    Some(HostToTarget::StartSpiTransaction { mode, data })
                                } else {
                                    None
                                }
                            }
                        },
                    }
                } else if d == 8 {
                    if p == n {
                        proof {
                            assert(s.skip(p as int) =~= Seq::<u8>::empty());
                        }
                        Some(HostToTarget::ReadAdc)
                    } else {
                        None
                    }
                } else {
                    None
                }
            }
        }
    }

    proof fn lemma_round_trip(&self) {
        let e = Self::enc_view(self@);
        match self {
            HostToTarget::SendUsart { mode, data } => {
                let tail = mode.enc() + enc_bytes(data@);
                assert(e =~= seq![0u8] + tail);
                lemma_dec_u8(0, tail);
                assert(mode.enc() + (enc_bytes(data@) + Seq::<u8>::empty()) =~= tail);
                mode.lemma_dec(enc_bytes(data@) + Seq::<u8>::empty());
                lemma_dec_bytes(data@, Seq::<u8>::empty());
                assert(enc_bytes(data@) + Seq::<u8>::empty() =~= enc_bytes(data@));
                assert(Self::dec(e) == Some(self@));
            }
            HostToTarget::WaitForAddress(a) => {
                assert(e =~= seq![1u8] + seq![*a]);
                lemma_dec_u8(1, seq![*a]);
                lemma_dec_u8(*a, Seq::<u8>::empty());
                assert(seq![*a] + Seq::<u8>::empty() =~= seq![*a]);
                assert(Self::dec(e) == Some(self@));
            }
            HostToTarget::SetPin(sl) => {
                assert(e =~= seq![2u8] + sl.enc());
                lemma_dec_u8(2, sl.enc());
                assert(sl.enc() + Seq::<u8>::empty() =~= sl.enc());
                sl.lemma_dec(Seq::<u8>::empty());
                assert(Self::dec(e) == Some(self@));
            }
            HostToTarget::ReadPin(rl) => {
                assert(e =~= seq![3u8] + rl.enc());
                lemma_dec_u8(3, rl.enc());
                assert(rl.enc() + Seq::<u8>::empty() =~= rl.enc());
                rl.lemma_dec(Seq::<u8>::empty());
                assert(Self::dec(e) == Some(self@));
            }
            HostToTarget::StartTimerInterrupt { period_ms } => {
                assert(e =~= seq![4u8] + le32(*period_ms));
                lemma_dec_u8(4, le32(*period_ms));
                lemma_dec_u32(*period_ms, Seq::<u8>::empty());
                assert(le32(*period_ms) + Seq::<u8>::empty() =~= le32(*period_ms));
                assert(Self::dec(e) == Some(self@));
            }
            HostToTarget::StopTimerInterrupt => {
                assert(e =~= seq![5u8] + Seq::<u8>::empty());
                lemma_dec_u8(5, Seq::<u8>::empty());
                assert(Self::dec(e) == Some(self@));
            }
            HostToTarget::StartI2cTransaction { mode, address, data } => {
                let tail = mode.enc() + seq![*address, *data];
                assert(e =~= seq![6u8] + tail);
                lemma_dec_u8(6, tail);
                assert(mode.enc() + (seq![*address] + (seq![*data] + Seq::<u8>::empty())) =~= tail);
                mode.lemma_dec(seq![*address] + (seq![*data] + Seq::<u8>::empty()));
                lemma_dec_u8(*address, seq![*data] + Seq::<u8>::empty());
                lemma_dec_u8(*data, Seq::<u8>::empty());
                assert(Self::dec(e) == Some(self@));
            }
            HostToTarget::StartSpiTransaction { mode, data } => {
                let tail = mode.enc() + seq![*data];
                assert(e =~= seq![7u8] + tail);
                lemma_dec_u8(7, tail);
                assert(mode.enc() + (seq![*data] + Seq::<u8>::empty()) =~= tail);
                mode.lemma_dec(seq![*data] + Seq::<u8>::empty());
                lemma_dec_u8(*data, Seq::<u8>::empty());
                assert(Self::dec(e) == Some(self@));
            }
            HostToTarget::ReadAdc => {
                assert(e =~= seq![8u8] + Seq::<u8>::empty());
                lemma_dec_u8(8, Seq::<u8>::empty());
                assert(Self::dec(e) == Some(self@));
            }
        }
    }
}

/// A message from the target to the test suite on the host.
#[derive(Clone, Debug, PartialEq, Eq)]
pub enum TargetToHost {
    /// Bytes arrived over the target's USART.
    UsartReceive { mode: UsartMode, data: Vec<u8> },
    /// Reply to a read request: the level of the target's input pin.
    ReadPinResult(Option<ReadLevelResult<()>>),
    /// The byte the I2C slave answered with.
    I2cReply(u8),
    /// The byte the SPI slave answered with.
    SpiReply(u8),
    /// A reading of the analog input.
    AdcValue(u16),
    /// Notification pushed when the level of the target's GPIO pin changed.
    PinLevelChanged { level: Level },
}

/// Abstract value of a [`TargetToHost`] message.
pub enum TargetToHostView {
    UsartReceive { mode: UsartMode, data: Seq<u8> },
    ReadPinResult(Option<ReadLevelResult<()>>),
    I2cReply(u8),
    SpiReply(u8),
    AdcValue(u16),
    PinLevelChanged { level: Level },
}

impl View for TargetToHost {
    type V = TargetToHostView;

    open spec fn view(&self) -> TargetToHostView {
        match self {
            TargetToHost::UsartReceive { mode, data } => TargetToHostView::UsartReceive {
                mode: *mode,
                data: data@,
            },
            TargetToHost::ReadPinResult(r) => TargetToHostView::ReadPinResult(*r),
            TargetToHost::I2cReply(b) => TargetToHostView::I2cReply(*b),
            TargetToHost::SpiReply(b) => TargetToHostView::SpiReply(*b),
            TargetToHost::AdcValue(v) => TargetToHostView::AdcValue(*v),
            TargetToHost::PinLevelChanged { level } => TargetToHostView::PinLevelChanged {
                level: *level,
            },
        }
    }
}

impl WireMessage for TargetToHost {
    open spec fn wf(&self) -> bool {
        match self {
            TargetToHost::UsartReceive { mode, data } => data@.len() <= u32::MAX,
            _ => true,
        }
    }

    open spec fn enc_view(v: TargetToHostView) -> Seq<u8> {
        match v {
            TargetToHostView::UsartReceive { mode, data } => seq![0u8] + mode.enc() + enc_bytes(
                data,
            ),
            TargetToHostView::ReadPinResult(r) => match r {
                Option::None => seq![1u8] + seq![0u8],
                Option::Some(rlr) => seq![1u8] + seq![1u8] + rlr.enc(),
            },
            TargetToHostView::I2cReply(b) => seq![2u8] + seq![b],
            TargetToHostView::SpiReply(b) => seq![3u8] + seq![b],
            TargetToHostView::AdcValue(value) => seq![4u8] + le16(value),
            TargetToHostView::PinLevelChanged { level } => seq![5u8] + level.enc(),
        }
    }

    open spec fn dec(s: Seq<u8>) -> Option<TargetToHostView> {
        match dec_u8(s) {
            Option::None => None,
            Option::Some((d, r)) => {
                if d == 0 {
                    match UsartMode::dec(r) {
                        Option::None => None,
                        Option::Some((mode, r2)) => match dec_bytes(r2) {
                            Option::None => None,
                            Option::Some((data, r3)) => {
                                if r3.len() == 0 {
                                    Some(TargetToHostView::UsartReceive { mode, data })
                                } else {
                                    None
                                }
                            }
                        },
                    }
                } else if d == 1 {
                    match dec_u8(r) {
                        Option::None => None,
                        Option::Some((tag, r2)) => {
                            if tag == 0 {
                                if r2.len() == 0 {
                                    Some(TargetToHostView::ReadPinResult(Option::None))
                                } else {
                                    None
                                }
                            } else if tag == 1 {
                                match ReadLevelResult::<()>::dec(r2) {
                                    Option::None => None,
                                    Option::Some((rlr, r3)) => {
                                        if r3.len() == 0 {
                                            Some(
                                                TargetToHostView::ReadPinResult(Option::Some(rlr)),
                                            )
                                        } else {
                                            None
                                        }
                                    }
                                }
                            } else {
                                None
                            }
                        }
                    }
                } else if d == 2 {
                    match dec_u8(r) {
                        Option::None => None,
                        Option::Some((b, r2)) => {
                            if r2.len() == 0 {
                                Some(TargetToHostView::I2cReply(b))
                            } else {
                                None
                            }
                        }
                    }
                } else if d == 3 {
                    match dec_u8(r) {
                        Option::None => None,
                        Option::Some((b, r2)) => {
                            if r2.len() == 0 {
                                Some(TargetToHostView::SpiReply(b))
                            } else {
                                None
                            }
                        }
                    }
                } else if d == 4 {
                    match dec_u16(r) {
                        Option::None => None,
                        Option::Some((value, r2)) => {
                            if r2.len() == 0 {
                                Some(TargetToHostView::AdcValue(value))
                            } else {
                                None
                            }
                        }
                    }
                } else if d == 5 {
                    match Level::dec(r) {
                        Option::None => None,
                        Option::Some((level, r2)) => {
                            if r2.len() == 0 {
                                Some(TargetToHostView::PinLevelChanged { level })
                            } else {
                                None
                            }
                        }
                    }
                } else {
                    None
                }
            }
        }
    }

    fn encode(&self, out: &mut Vec<u8>) {
        match self {
            TargetToHost::UsartReceive { mode, data } => {
                put_u8(out, 0);
                mode.put(out);
                put_bytes(out, data.as_slice());
            }
            TargetToHost::ReadPinResult(r) => {
                put_u8(out, 1);
                match r {
                    None => put_u8(out, 0),
                    Some(rlr) => {
                        put_u8(out, 1);
                        rlr.put(out);
                    }
                }
            }
            TargetToHost::I2cReply(b) => {
                put_u8(out, 2);
                put_u8(out, *b);
            }
            TargetToHost::SpiReply(b) => {
                put_u8(out, 3);
                put_u8(out, *b);
            }
            TargetToHost::AdcValue(value) => {
                put_u8(out, 4);
                put_u16(out, *value);
            }
            TargetToHost::PinLevelChanged { level } => {
                put_u8(out, 5);
                level.put(out);
            }
        }
        assert(out@ =~= old(out)@ + Self::enc_view(self@));
    }

    fn decode(buf: &[u8]) -> (r: Option<Self>) {
        let ghost s = buf@;
        proof {
            assert(s.skip(0) =~= s);
        }
        let n = buf.len();
        match get_u8(buf, 0) {
            None => None,
            Some((d, p)) => {
                if d == 0 {
                    match UsartMode::get(buf, p) {
                        None => None,
                        Some((mode, p2)) => match get_bytes(buf, p2) {
                            None => None,
                            Some((data, p3)) => {
                                if p3 == n {
                                    proof {
                                        assert(s.skip(p3 as int) =~= Seq::<u8>::empty());
                                    }
                                    Some(TargetToHost::UsartReceive { mode, data })
                                } else {
                                    None
                                }
                            }
                        },
                    }
                } else if d == 1 {
                    match get_u8(buf, p) {
                        None => None,
                        Some((tag, p2)) => {
                            if tag == 0 {
                                if p2 == n {
                                    proof {
                                        assert(s.skip(p2 as int) =~= Seq::<u8>::empty());
                                    }
                                    Some(TargetToHost::ReadPinResult(None))
                                } else {
                                    None
                                }
                            } else if tag == 1 {
                                match ReadLevelResult::<()>::get(buf, p2) {
                                    None => None,
                                    Some((rlr, p3)) => {
                                        if p3 == n {
                                            proof {
                                                assert(s.skip(p3 as int) =~= Seq::<u8>::empty());
                                            }
                                            Some(TargetToHost::ReadPinResult(Some(rlr)))
                                        } else {
                                            None
                                        }
                                    }
                                }
                            } else {
                                None
                            }
                        }
                    }
                } else if d == 2 {
                    match get_u8(buf, p) {
                        None => None,
                        Some((b, p2)) => {
                            if p2 == n {
                                proof {
                                    assert(s.skip(p2 as int) =~= Seq::<u8>::empty());
                                }
                                Some(TargetToHost::I2cReply(b))
                            } else {
                                None
                            }
                        }
                    }
                } else if d == 3 {
                    match get_u8(buf, p) {
                        None => None,
                        Some((b, p2)) => {
                            if p2 == n {
                                proof {
                                    assert(s.skip(p2 as int) =~= Seq::<u8>::empty());
                                }
                                Some(TargetToHost::SpiReply(b))
                            } else {
                                None
                            }
                        }
                    }
                } else if d == 4 {
                    match get_u16(buf, p) {
                        None => None,
                        Some((value, p2)) => {
                            if p2 == n {
                                proof {
                                    assert(s.skip(p2 as int) =~= Seq::<u8>::empty());
                                }
                                Some(TargetToHost::AdcValue(value))
                            } else {
                                None
                            }
                        }
                    }
                } else if d == 5 {
                    match Level::get(buf, p) {
                        None => None,
                        Some((level, p2)) => {
                            if p2 == n {
                                proof {
                                    assert(s.skip(p2 as int) =~= Seq::<u8>::empty());
                                }
                                Some(TargetToHost::PinLevelChanged { level })
                            } else {
                                None
                            }
                        }
                    }
                } else {
                    None
                }
            }
        }
    }

    proof fn lemma_round_trip(&self) {
        let e = Self::enc_view(self@);
        match self {
            TargetToHost::UsartReceive { mode, data } => {
                let tail = mode.enc() + enc_bytes(data@);
                assert(e =~= seq![0u8] + tail);
                lemma_dec_u8(0, tail);
                assert(mode.enc() + (enc_bytes(data@) + Seq::<u8>::empty()) =~= tail);
                mode.lemma_dec(enc_bytes(data@) + Seq::<u8>::empty());
                lemma_dec_bytes(data@, Seq::<u8>::empty());
                assert(enc_bytes(data@) + Seq::<u8>::empty() =~= enc_bytes(data@));
                assert(Self::dec(e) == Some(self@));
            }
            TargetToHost::ReadPinResult(r) => {
                match r {
                    Option::None => {
                        assert(e =~= seq![1u8] + seq![0u8]);
                        lemma_dec_u8(1, seq![0u8]);
                        lemma_dec_u8(0, Seq::<u8>::empty());
                        assert(seq![0u8] + Seq::<u8>::empty() =~= seq![0u8]);
                        assert(Self::dec(e) == Some(self@));
                    }
                    Option::Some(rlr) => {
                        let tail = seq![1u8] + rlr.enc();
                        assert(e =~= seq![1u8] + tail);
                        lemma_dec_u8(1, tail);
                        assert(seq![1u8] + (rlr.enc() + Seq::<u8>::empty()) =~= tail);
                        lemma_dec_u8(1, rlr.enc() + Seq::<u8>::empty());
                        rlr.lemma_dec(Seq::<u8>::empty());
                        assert(rlr.enc() + Seq::<u8>::empty() =~= rlr.enc());
                        assert(Self::dec(e) == Some(self@));
                    }
                }
            }
            TargetToHost::I2cReply(b) => {
                assert(e =~= seq![2u8] + seq![*b]);
                lemma_dec_u8(2, seq![*b]);
                lemma_dec_u8(*b, Seq::<u8>::empty());
                assert(seq![*b] + Seq::<u8>::empty() =~= seq![*b]);
                assert(Self::dec(e) == Some(self@));
            }
            TargetToHost::SpiReply(b) => {
                assert(e =~= seq![3u8] + seq![*b]);
                lemma_dec_u8(3, seq![*b]);
                lemma_dec_u8(*b, Seq::<u8>::empty());
                assert(seq![*b] + Seq::<u8>::empty() =~= seq![*b]);
                assert(Self::dec(e) == Some(self@));
            }
            TargetToHost::AdcValue(value) => {
                assert(e =~= seq![4u8] + le16(*value));
                lemma_dec_u8(4, le16(*value));
                lemma_dec_u16(*value, Seq::<u8>::empty());
                assert(le16(*value) + Seq::<u8>::empty() =~= le16(*value));
                assert(Self::dec(e) == Some(self@));
            }
            TargetToHost::PinLevelChanged { level } => {
                assert(e =~= seq![5u8] + level.enc());
                lemma_dec_u8(5, level.enc());
                assert(level.enc() + Seq::<u8>::empty() =~= level.enc());
                level.lemma_dec(Seq::<u8>::empty());
                assert(Self::dec(e) == Some(self@));
            }
        }
    }
}

} // verus!
