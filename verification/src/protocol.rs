//! Messages exchanged between the host and the test assistant.
//!
//! The assistant is the node that stimulates and observes the device under
//! test: the host commands it to send bytes over a USART or drive an output
//! pin, and asks it for the level it last saw on a monitored input pin.

use vstd::prelude::*;

use crate::pin::ReadLevel;
use crate::pin::ReadLevelResult;
use crate::pin::SetLevel;
use crate::pin::PinId;
use crate::wire::WireMessage;
use crate::wire::dec_bytes;
use crate::wire::dec_u8;
use crate::wire::enc_bytes;
use crate::wire::get_bytes;
use crate::wire::get_u8;
use crate::wire::lemma_dec_bytes;
use crate::wire::lemma_dec_u8;
use crate::wire::put_bytes;
use crate::wire::put_u8;

verus! {

/// Which style of USART transmission a command or notification concerns.
#[derive(Clone, Copy, Debug, PartialEq, Eq, Structural)]
pub enum UsartMode {
    Regular,
    Dma,
    FlowControl,
    Sync,
}

impl UsartMode {
    pub open spec fn enc(&self) -> Seq<u8> {
        match self {
            UsartMode::Regular => seq![0u8],
            UsartMode::Dma => seq![1u8],
            UsartMode::FlowControl => seq![2u8],
            UsartMode::Sync => seq![3u8],
        }
    }

    pub open spec fn dec(s: Seq<u8>) -> Option<(UsartMode, Seq<u8>)> {
        match dec_u8(s) {
            Option::None => None,
            Option::Some((b, r)) => {
                if b == 0 {
                    Some((UsartMode::Regular, r))
                } else if b == 1 {
                    Some((UsartMode::Dma, r))
                } else if b == 2 {
                    Some((UsartMode::FlowControl, r))
                } else if b == 3 {
                    Some((UsartMode::Sync, r))
                } else {
                    None
                }
            }
        }
    }

    pub fn put(&self, out: &mut Vec<u8>)
        ensures
            final(out)@ == old(out)@ + self.enc(),
    {
        match self {
            UsartMode::Regular => out.push(0u8),
            UsartMode::Dma => out.push(1u8),
            UsartMode::FlowControl => out.push(2u8),
            UsartMode::Sync => out.push(3u8),
        }
        assert(out@ =~= old(out)@ + self.enc());
    }

    pub fn get(buf: &[u8], pos: usize) -> (r: Option<(UsartMode, usize)>)
        requires
            pos <= buf@.len(),
        ensures
            match r {
                Some((v, p)) => {
                    &&& pos < p <= buf@.len()
                    &&& UsartMode::dec(buf@.skip(pos as int)) == Some((v, buf@.skip(p as int)))
                },
                None => UsartMode::dec(buf@.skip(pos as int)) is None,
            },
    {
        match get_u8(buf, pos) {
            None => None,
            Some((b, p)) => {
                if b == 0 {
                    Some((UsartMode::Regular, p))
                } else if b == 1 {
                    Some((UsartMode::Dma, p))
                } else if b == 2 {
                    Some((UsartMode::FlowControl, p))
                } else if b == 3 {
                    Some((UsartMode::Sync, p))
                } else {
                    None
                }
            }
        }
    }

    pub proof fn lemma_dec(&self, rest: Seq<u8>)
        ensures
            UsartMode::dec(self.enc() + rest) == Some((*self, rest)),
    {
        match self {
            UsartMode::Regular => lemma_dec_u8(0, rest),
            UsartMode::Dma => lemma_dec_u8(1, rest),
            UsartMode::FlowControl => lemma_dec_u8(2, rest),
            UsartMode::Sync => lemma_dec_u8(3, rest),
        }
    }
}

/// One of the pins the assistant monitors.
#[derive(Clone, Copy, Debug, PartialEq, Eq, Structural)]
pub enum InputPin {
    Blue,
    Green,
    Rts,
}

impl InputPin {
    /// Slot of this pin in the assistant's level table.
    pub open spec fn idx(&self) -> int {
        match self {
            InputPin::Blue => 0,
            InputPin::Green => 1,
            InputPin::Rts => 2,
        }
    }

    /// Slot of this pin in the assistant's level table.
    pub fn index(&self) -> (i: usize)
        ensures
            i == self.idx(),
            i < 3,
    {
        match self {
            InputPin::Blue => 0,
            InputPin::Green => 1,
            InputPin::Rts => 2,
        }
    }
}

impl PinId for InputPin {
    open spec fn enc(&self) -> Seq<u8> {
        match self {
            InputPin::Blue => seq![0u8],
            InputPin::Green => seq![1u8],
            InputPin::Rts => seq![2u8],
        }
    }

    open spec fn dec(s: Seq<u8>) -> Option<(InputPin, Seq<u8>)> {
        match dec_u8(s) {
            Option::None => None,
            Option::Some((b, r)) => {
                if b == 0 {
                    Some((InputPin::Blue, r))
                } else if b == 1 {
                    Some((InputPin::Green, r))
                } else if b == 2 {
                    Some((InputPin::Rts, r))
                } else {
                    None
                }
            }
        }
    }

    fn put(&self, out: &mut Vec<u8>) {
        match self {
            InputPin::Blue => out.push(0u8),
            InputPin::Green => out.push(1u8),
            InputPin::Rts => out.push(2u8),
        }
        assert(out@ =~= old(out)@ + self.enc());
    }

    fn get(buf: &[u8], pos: usize) -> (r: Option<(InputPin, usize)>) {
        match get_u8(buf, pos) {
            None => None,
            Some((b, p)) => {
                if b == 0 {
                    Some((InputPin::Blue, p))
                } else if b == 1 {
                    Some((InputPin::Green, p))
                } else if b == 2 {
                    Some((InputPin::Rts, p))
                } else {
                    None
                }
            }
        }
    }

    fn same(&self, other: &Self) -> (r: bool) {
        *self == *other
    }

    proof fn lemma_dec(&self, rest: Seq<u8>) {
        match self {
            InputPin::Blue => lemma_dec_u8(0, rest),
            InputPin::Green => lemma_dec_u8(1, rest),
            InputPin::Rts => lemma_dec_u8(2, rest),
        }
    }
}

/// One of the pins the assistant can drive.
#[derive(Clone, Copy, Debug, PartialEq, Eq, Structural)]
pub enum OutputPin {
    Pin5,
    Cts,
    Red,
}

impl PinId for OutputPin {
    open spec fn enc(&self) -> Seq<u8> {
        match self {
            OutputPin::Pin5 => seq![0u8],
            OutputPin::Cts => seq![1u8],
            OutputPin::Red => seq![2u8],
        }
    }

    open spec fn dec(s: Seq<u8>) -> Option<(OutputPin, Seq<u8>)> {
        match dec_u8(s) {
            Option::None => None,
            Option::Some((b, r)) => {
                if b == 0 {
                    Some((OutputPin::Pin5, r))
                } else if b == 1 {
                    Some((OutputPin::Cts, r))
                } else if b == 2 {
                    Some((OutputPin::Red, r))
                } else {
                    None
                }
            }
        }
    }

    fn put(&self, out: &mut Vec<u8>) {
        match self {
            OutputPin::Pin5 => out.push(0u8),
            OutputPin::Cts => out.push(1u8),
            OutputPin::Red => out.push(2u8),
        }
        assert(out@ =~= old(out)@ + self.enc());
    }

    fn get(buf: &[u8], pos: usize) -> (r: Option<(OutputPin, usize)>) {
        match get_u8(buf, pos) {
            None => None,
            Some((b, p)) => {
                if b == 0 {
                    Some((OutputPin::Pin5, p))
                } else if b == 1 {
                    Some((OutputPin::Cts, p))
                } else if b == 2 {
                    Some((OutputPin::Red, p))
                } else {
                    None
                }
            }
        }
    }

    fn same(&self, other: &Self) -> (r: bool) {
        *self == *other
    }

    proof fn lemma_dec(&self, rest: Seq<u8>) {
        match self {
            OutputPin::Pin5 => lemma_dec_u8(0, rest),
            OutputPin::Cts => lemma_dec_u8(1, rest),
            OutputPin::Red => lemma_dec_u8(2, rest),
        }
    }
}

/// A message from the test suite on the host to the test assistant.
#[derive(Clone, Debug, PartialEq, Eq)]
pub enum HostToAssistant {
    /// Send the given bytes to the target over the given USART.
    SendUsart { mode: UsartMode, data: Vec<u8> },
    /// Drive one of the target's input pins.
    SetPin(SetLevel<OutputPin>),
    /// Report the level last seen on a monitored pin.
    ReadPin(ReadLevel<InputPin>),
}

/// Abstract value of a [`HostToAssistant`] message.
pub enum HostToAssistantView {
    SendUsart { mode: UsartMode, data: Seq<u8> },
    SetPin(SetLevel<OutputPin>),
    ReadPin(ReadLevel<InputPin>),
}

impl View for HostToAssistant {
    type V = HostToAssistantView;

    open spec fn view(&self) -> HostToAssistantView {
        match self {
            HostToAssistant::SendUsart { mode, data } => HostToAssistantView::SendUsart {
                mode: *mode,
                data: data@,
            },
            HostToAssistant::SetPin(sl) => HostToAssistantView::SetPin(*sl),
            HostToAssistant::ReadPin(rl) => HostToAssistantView::ReadPin(*rl),
        }
    }
}

impl WireMessage for HostToAssistant {
    open spec fn wf(&self) -> bool {
        match self {
            HostToAssistant::SendUsart { mode, data } => data@.len() <= u32::MAX,
            _ => true,
        }
    }

    open spec fn enc_view(v: HostToAssistantView) -> Seq<u8> {
        match v {
            HostToAssistantView::SendUsart { mode, data } => seq![0u8] + mode.enc() + enc_bytes(
                data,
            ),
            HostToAssistantView::SetPin(sl) => seq![1u8] + sl.enc(),
            HostToAssistantView::ReadPin(rl) => seq![2u8] + rl.enc(),
        }
    }

    open spec fn dec(s: Seq<u8>) -> Option<HostToAssistantView> {
        match dec_u8(s) {
            Option::None => None,
            Option::Some((d, r)) => {
                if d == 0 {
                    match UsartMode::dec(r) {
                        Option::None => None,
                        Option::Some((mode, r2)) => match dec_bytes(r2) {
                            Option::None => None,
                            Option::Some((data, r3)) => {
                                if r3.len() == 0 {
                                    Some(HostToAssistantView::SendUsart { mode, data })
                                } else {
                                    None
                                }
                            }
                        },
                    }
                } else if d == 1 {
                    match SetLevel::<OutputPin>::dec(r) {
                        Option::None => None,
                        Option::Some((sl, r2)) => {
                            if r2.len() == 0 {
                                Some(HostToAssistantView::SetPin(sl))
                            } else {
                                None
                            }
                        }
                    }
                } else if d == 2 {
                    match ReadLevel::<InputPin>::dec(r) {
                        Option::None => None,
                        Option::Some((rl, r2)) => {
                            if r2.len() == 0 {
                                Some(HostToAssistantView::ReadPin(rl))
                            } else {
                                None
                            }
                        }
                    }
                } else {
                    None
                }
            }
        }
    }

    fn encode(&self, out: &mut Vec<u8>) {
        match self {
            HostToAssistant::SendUsart { mode, data } => {
                put_u8(out, 0);
                mode.put(out);
                put_bytes(out, data.as_slice());
            }
            HostToAssistant::SetPin(sl) => {
                put_u8(out, 1);
                sl.put(out);
            }
            HostToAssistant::ReadPin(rl) => {
                put_u8(out, 2);
                rl.put(out);
            }
        }
        assert(out@ =~= old(out)@ + Self::enc_view(self@));
    }

    fn decode(buf: &[u8]) -> (r: Option<Self>) {
        let ghost s = buf@;
        proof {
            assert(s.skip(0) =~= s);
        }
        match get_u8(buf, 0) {
            None => None,
            Some((d, p)) => {
                if d == 0 {
                    match UsartMode::get(buf, p) {
                        None => None,
                        Some((mode, p2)) => match get_bytes(buf, p2) {
                            None => None,
                            Some((data, p3)) => {
                                if p3 == buf.len() {
                                    proof {
                                        assert(s.skip(p3 as int) =~= Seq::<u8>::empty());
                                    }
                                    Some(HostToAssistant::SendUsart { mode, data })
                                } else {
                                    None
                                }
                            }
                        },
                    }
                } else if d == 1 {
                    match SetLevel::<OutputPin>::get(buf, p) {
                        None => None,
                        Some((sl, p2)) => {
                            if p2 == buf.len() {
                                proof {
                                    assert(s.skip(p2 as int) =~= Seq::<u8>::empty());
                                }
                                Some(HostToAssistant::SetPin(sl))
                            } else {
                                None
                            }
                        }
                    }
                } else if d == 2 {
                    match ReadLevel::<InputPin>::get(buf, p) {
                        None => None,
                        Some((rl, p2)) => {
                            if p2 == buf.len() {
                                proof {
                                    assert(s.skip(p2 as int) =~= Seq::<u8>::empty());
                                }
                                Some(HostToAssistant::ReadPin(rl))
                            } else {
                                None
                            }
                        }
                    }
                } else {
                    None
                }
            }
        }
    }

    proof fn lemma_round_trip(&self) {
        match self {
            HostToAssistant::SendUsart { mode, data } => {
                let tail = mode.enc() + enc_bytes(data@);
                assert(Self::enc_view(self@) =~= seq![0u8] + tail);
                lemma_dec_u8(0, tail);
                assert(mode.enc() + (enc_bytes(data@) + Seq::<u8>::empty()) =~= tail);
                mode.lemma_dec(enc_bytes(data@) + Seq::<u8>::empty());
                lemma_dec_bytes(data@, Seq::<u8>::empty());
                assert(enc_bytes(data@) + Seq::<u8>::empty() =~= enc_bytes(data@));
                assert(Self::dec(Self::enc_view(self@)) == Some(self@));
            }
            HostToAssistant::SetPin(sl) => {
                let tail = sl.enc();
                assert(Self::enc_view(self@) =~= seq![1u8] + tail);
                lemma_dec_u8(1, tail);
                assert(sl.enc() + Seq::<u8>::empty() =~= tail);
                sl.lemma_dec(Seq::<u8>::empty());
                assert(Self::dec(Self::enc_view(self@)) == Some(self@));
            }
            HostToAssistant::ReadPin(rl) => {
                let tail = rl.enc();
                assert(Self::enc_view(self@) =~= seq![2u8] + tail);
                lemma_dec_u8(2, tail);
                assert(rl.enc() + Seq::<u8>::empty() =~= tail);
                rl.lemma_dec(Seq::<u8>::empty());
                assert(Self::dec(Self::enc_view(self@)) == Some(self@));
            }
        }
    }
}

/// A message from the test assistant to the test suite on the host.
#[derive(Clone, Debug, PartialEq, Eq)]
pub enum AssistantToHost {
    /// Bytes arrived from the target over a USART.
    UsartReceive { mode: UsartMode, data: Vec<u8> },
    /// Reply to a read request: the level last seen on the pin, or nothing if
    /// no change was ever observed.
    ReadPinResult(Option<ReadLevelResult<InputPin>>),
}

/// Abstract value of an [`AssistantToHost`] message.
pub enum AssistantToHostView {
    UsartReceive { mode: UsartMode, data: Seq<u8> },
    ReadPinResult(Option<ReadLevelResult<InputPin>>),
}

impl View for AssistantToHost {
    type V = AssistantToHostView;

    open spec fn view(&self) -> AssistantToHostView {
        match self {
            AssistantToHost::UsartReceive { mode, data } => AssistantToHostView::UsartReceive {
                mode: *mode,
                data: data@,
            },
            AssistantToHost::ReadPinResult(r) => AssistantToHostView::ReadPinResult(*r),
        }
    }
}

impl WireMessage for AssistantToHost {
    open spec fn wf(&self) -> bool {
        match self {
            AssistantToHost::UsartReceive { mode, data } => data@.len() <= u32::MAX,
            _ => true,
        }
    }

    open spec fn enc_view(v: AssistantToHostView) -> Seq<u8> {
        match v {
            AssistantToHostView::UsartReceive { mode, data } => seq![0u8] + mode.enc() + enc_bytes(
                data,
            ),
            AssistantToHostView::ReadPinResult(r) => match r {
                Option::None => seq![1u8] + seq![0u8],
                Option::Some(rlr) => seq![1u8] + seq![1u8] + rlr.enc(),
            },
        }
    }

    open spec fn dec(s: Seq<u8>) -> Option<AssistantToHostView> {
        match dec_u8(s) {
            Option::None => None,
            Option::Some((d, r)) => {
                if d == 0 {
                    match UsartMode::dec(r) {
                        Option::None => None,
                        Option::Some((mode, r2)) => match dec_bytes(r2) {
                            Option::None => None,
                            Option::Some((data, r3)) => {
                                if r3.len() == 0 {
                                    Some(AssistantToHostView::UsartReceive { mode, data })
                                } else {
                                    None
                                }
                            }
                        },
                    }
                } else if d == 1 {
                    match dec_u8(r) {
                        Option::None => None,
                        Option::Some((tag, r2)) => {
                            if tag == 0 {
                                if r2.len() == 0 {
                                    Some(AssistantToHostView::ReadPinResult(Option::None))
                                } else {
                                    None
                                }
                            } else if tag == 1 {
                                match ReadLevelResult::<InputPin>::dec(r2) {
                                    Option::None => None,
                                    Option::Some((rlr, r3)) => {
                                        if r3.len() == 0 {
                                            Some(
                                                AssistantToHostView::ReadPinResult(
                                                    Option::Some(rlr),
                                                ),
                                            )
                                        } else {
                                            None
                                        }
                                    }
                                }
                            } else {
                                None
                            }
                        }
                    }
                } else {
                    None
                }
            }
        }
    }

    fn encode(&self, out: &mut Vec<u8>) {
        match self {
            AssistantToHost::UsartReceive { mode, data } => {
                put_u8(out, 0);
                mode.put(out);
                put_bytes(out, data.as_slice());
            }
            AssistantToHost::ReadPinResult(r) => {
                put_u8(out, 1);
                match r {
                    None => put_u8(out, 0),
                    Some(rlr) => {
                        put_u8(out, 1);
                        rlr.put(out);
                    }
                }
            }
        }
        assert(out@ =~= old(out)@ + Self::enc_view(self@));
    }

    fn decode(buf: &[u8]) -> (r: Option<Self>) {
        let ghost s = buf@;
        proof {
            assert(s.skip(0) =~= s);
        }
        match get_u8(buf, 0) {
            None => None,
            Some((d, p)) => {
                if d == 0 {
                    match UsartMode::get(buf, p) {
                        None => None,
                        Some((mode, p2)) => match get_bytes(buf, p2) {
                            None => None,
                            Some((data, p3)) => {
                                if p3 == buf.len() {
                                    proof {
                                        assert(s.skip(p3 as int) =~= Seq::<u8>::empty());
                                    }
                                    Some(AssistantToHost::UsartReceive { mode, data })
                                } else {
                                    None
                                }
                            }
                        },
                    }
                } else if d == 1 {
                    match get_u8(buf, p) {
                        None => None,
                        Some((tag, p2)) => {
                            if tag == 0 {
                                if p2 == buf.len() {
                                    proof {
                                        assert(s.skip(p2 as int) =~= Seq::<u8>::empty());
                                    }
                                    Some(AssistantToHost::ReadPinResult(None))
                                } else {
                                    None
                                }
                            } else if tag == 1 {
                                match ReadLevelResult::<InputPin>::get(buf, p2) {
                                    None => None,
                                    Some((rlr, p3)) => {
                                        if p3 == buf.len() {
                                            proof {
                                                assert(s.skip(p3 as int) =~= Seq::<u8>::empty());
                                            }
                                            Some(AssistantToHost::ReadPinResult(Some(rlr)))
                                        } else {
                                            None
                                        }
                                    }
                                }
                            } else {
                                None
                            }
                        }
                    }
                } else {
                    None
                }
            }
        }
    }

    proof fn lemma_round_trip(&self) {
        match self {
            AssistantToHost::UsartReceive { mode, data } => {
                let tail = mode.enc() + enc_bytes(data@);
                assert(Self::enc_view(self@) =~= seq![0u8] + tail);
                lemma_dec_u8(0, tail);
                assert(mode.enc() + (enc_bytes(data@) + Seq::<u8>::empty()) =~= tail);
                mode.lemma_dec(enc_bytes(data@) + Seq::<u8>::empty());
                lemma_dec_bytes(data@, Seq::<u8>::empty());
                assert(enc_bytes(data@) + Seq::<u8>::empty() =~= enc_bytes(data@));
                assert(Self::dec(Self::enc_view(self@)) == Some(self@));
            }
            AssistantToHost::ReadPinResult(r) => {
                match r {
                    Option::None => {
                        assert(Self::enc_view(self@) =~= seq![1u8] + seq![0u8]);
                        lemma_dec_u8(1, seq![0u8]);
                        lemma_dec_u8(0, Seq::<u8>::empty());
                        assert(seq![0u8] + Seq::<u8>::empty() =~= seq![0u8]);
                        assert(Self::dec(Self::enc_view(self@)) == Some(self@));
                    }
                    Option::Some(rlr) => {
                        let tail = seq![1u8] + rlr.enc();
                        assert(Self::enc_view(self@) =~= seq![1u8] + tail);
                        lemma_dec_u8(1, tail);
                        assert(seq![1u8] + (rlr.enc() + Seq::<u8>::empty()) =~= tail);
                        lemma_dec_u8(1, rlr.enc() + Seq::<u8>::empty());
                        rlr.lemma_dec(Seq::<u8>::empty());
                        assert(rlr.enc() + Seq::<u8>::empty() =~= rlr.enc());
                        assert(Self::dec(Self::enc_view(self@)) == Some(self@));
                    }
                }
            }
        }
    }
}

} // verus!
