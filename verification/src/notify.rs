//! The notification-push message family.
//!
//! An earlier style of assistant link: instead of answering read requests,
//! the node pushes a `PinLevelChanged` notification whenever a monitored pin
//! changes, and the host keeps the last one it saw. The request/reply style
//! lives in [`crate::protocol`].

use vstd::prelude::*;

use crate::pin::LevelChanged;
use crate::protocol::InputPin;
use crate::wire::WireMessage;
use crate::wire::dec_bytes;
use crate::wire::dec_u8;
use crate::wire::enc_bytes;
use crate::wire::get_bytes;
use crate::wire::get_u8;
use crate::wire::lemma_dec_bytes;
use crate::wire::lemma_dec_u8;
use crate::wire::put_bytes;
use crate::wire::put_u8;

verus! {

/// Whether a USART transmission runs through DMA.
#[derive(Clone, Copy, Debug, PartialEq, Eq, Structural)]
pub enum Mode {
    Regular,
    Dma,
}

impl Mode {
    pub open spec fn enc(&self) -> Seq<u8> {
        match self {
            Mode::Regular => seq![0u8],
            Mode::Dma => seq![1u8],
        }
    }

    pub open spec fn dec(s: Seq<u8>) -> Option<(Mode, Seq<u8>)> {
        match dec_u8(s) {
            Option::None => None,
            Option::Some((b, r)) => {
                if b == 0 {
                    Some((Mode::Regular, r))
                } else if b == 1 {
                    Some((Mode::Dma, r))
                } else {
                    None
                }
            }
        }
    }

    pub fn put(&self, out: &mut Vec<u8>)
        ensures
            final(out)@ == old(out)@ + self.enc(),
    {
        match self {
            Mode::Regular => out.push(0u8),
            Mode::Dma => out.push(1u8),
        }
        assert(out@ =~= old(out)@ + self.enc());
    }

    pub fn get(buf: &[u8], pos: usize) -> (r: Option<(Mode, usize)>)
        requires
            pos <= buf@.len(),
        ensures
            match r {
                Some((v, p)) => {
                    &&& pos < p <= buf@.len()
                    &&& Mode::dec(buf@.skip(pos as int)) == Some((v, buf@.skip(p as int)))
                },
                None => Mode::dec(buf@.skip(pos as int)) is None,
            },
    {
        match get_u8(buf, pos) {
            None => None,
            Some((b, p)) => {
                if b == 0 {
                    Some((Mode::Regular, p))
                } else if b == 1 {
                    Some((Mode::Dma, p))
                } else {
                    None
                }
            }
        }
    }

    pub proof fn lemma_dec(&self, rest: Seq<u8>)
        ensures
            Mode::dec(self.enc() + rest) == Some((*self, rest)),
    {
        match self {
            Mode::Regular => lemma_dec_u8(0, rest),
            Mode::Dma => lemma_dec_u8(1, rest),
        }
    }
}

/// The electrical state of a pin, as this family writes it on the wire.
#[derive(Clone, Copy, Debug, PartialEq, Eq, Structural)]
pub enum PinState {
    High,
    Low,
}

impl PinState {
    pub open spec fn enc(&self) -> Seq<u8> {
        match self {
            PinState::High => seq![0u8],
            PinState::Low => seq![1u8],
        }
    }

    pub open spec fn dec(s: Seq<u8>) -> Option<(PinState, Seq<u8>)> {
        match dec_u8(s) {
            Option::None => None,
            Option::Some((b, r)) => {
                if b == 0 {
                    Some((PinState::High, r))
                } else if b == 1 {
                    Some((PinState::Low, r))
                } else {
                    None
                }
            }
        }
    }

    pub fn put(&self, out: &mut Vec<u8>)
        ensures
            final(out)@ == old(out)@ + self.enc(),
    {
        match self {
            PinState::High => out.push(0u8),
            PinState::Low => out.push(1u8),
        }
        assert(out@ =~= old(out)@ + self.enc());
    }

    pub fn get(buf: &[u8], pos: usize) -> (r: Option<(PinState, usize)>)
        requires
            pos <= buf@.len(),
        ensures
            match r {
                Some((v, p)) => {
                    &&& pos < p <= buf@.len()
                    &&& PinState::dec(buf@.skip(pos as int)) == Some((v, buf@.skip(p as int)))
                },
                None => PinState::dec(buf@.skip(pos as int)) is None,
            },
    {
        match get_u8(buf, pos) {
            None => None,
            Some((b, p)) => {
                if b == 0 {
                    Some((PinState::High, p))
                } else if b == 1 {
                    Some((PinState::Low, p))
                } else {
                    None
                }
            }
        }
    }

    pub proof fn lemma_dec(&self, rest: Seq<u8>)
        ensures
            PinState::dec(self.enc() + rest) == Some((*self, rest)),
    {
        match self {
            PinState::High => lemma_dec_u8(0, rest),
            PinState::Low => lemma_dec_u8(1, rest),
        }
    }
}

/// A message from the host to a node of the notification-push family.
#[derive(Clone, Debug, PartialEq, Eq)]
pub enum HostToAssistant {
    /// Send the given bytes to the target via USART.
    SendUsart(Mode, Vec<u8>),
    /// Drive the target's input pin.
    SetPin(PinState),
}

/// Abstract value of a notification-push [`HostToAssistant`] message.
pub enum HostToAssistantView {
    SendUsart(Mode, Seq<u8>),
    SetPin(PinState),
}

impl View for HostToAssistant {
    type V = HostToAssistantView;

    open spec fn view(&self) -> HostToAssistantView {
        match self {
            HostToAssistant::SendUsart(mode, data) => HostToAssistantView::SendUsart(
                *mode,
                data@,
            ),
            HostToAssistant::SetPin(state) => HostToAssistantView::SetPin(*state),
        }
    }
}

impl WireMessage for HostToAssistant {
    open spec fn wf(&self) -> bool {
        match self {
            HostToAssistant::SendUsart(mode, data) => data@.len() <= u32::MAX,
            _ => true,
        }
    }

    open spec fn enc_view(v: HostToAssistantView) -> Seq<u8> {
        match v {
            HostToAssistantView::SendUsart(mode, data) => seq![0u8] + mode.enc() + enc_bytes(data),
            HostToAssistantView::SetPin(state) => seq![1u8] + state.enc(),
        }
    }

    open spec fn dec(s: Seq<u8>) -> Option<HostToAssistantView> {
        match dec_u8(s) {
            Option::None => None,
            Option::Some((d, r)) => {
                if d == 0 {
                    match Mode::dec(r) {
                        Option::None => None,
                        Option::Some((mode, r2)) => match dec_bytes(r2) {
                            Option::None => None,
                            Option::Some((data, r3)) => {
                                if r3.len() == 0 {
                                    Some(HostToAssistantView::SendUsart(mode, data))
                                } else {
                                    None
                                }
                            }
                        },
                    }
                } else if d == 1 {
                    match PinState::dec(r) {
                        Option::None => None,
                        Option::Some((state, r2)) => {
                            if r2.len() == 0 {
                                Some(HostToAssistantView::SetPin(state))
                            } else {
                                None
                            }
                        }
                    }
                } else {
                    None
                }
            }
        }
    }

    fn encode(&self, out: &mut Vec<u8>) {
        match self {
            HostToAssistant::SendUsart(mode, data) => {
                put_u8(out, 0);
                mode.put(out);
                put_bytes(out, data.as_slice());
            }
            HostToAssistant::SetPin(state) => {
                put_u8(out, 1);
                state.put(out);
            }
        }
        assert(out@ =~= old(out)@ + Self::enc_view(self@));
    }

    fn decode(buf: &[u8]) -> (r: Option<Self>) {
        let ghost s = buf@;
        proof {
            assert(s.skip(0) =~= s);
        }
        let n = buf.len();
        match get_u8(buf, 0) {
            None => None,
            Some((d, p)) => {
                if d == 0 {
                    match Mode::get(buf, p) {
                        None => None,
                        Some((mode, p2)) => match get_bytes(buf, p2) {
                            None => None,
                            Some((data, p3)) => {
                                if p3 == n {
                                    proof {
                                        assert(s.skip(p3 as int) =~= Seq::<u8>::empty());
                                    }
                                    Some(HostToAssistant::SendUsart(mode, data))
                                } else {
                                    None
                                }
                            }
                        },
                    }
                } else if d == 1 {
                    match PinState::get(buf, p) {
                        None => None,
                        Some((state, p2)) => {
                            if p2 == n {
                                proof {
                                    assert(s.skip(p2 as int) =~= Seq::<u8>::empty());
                                }
                                Some(HostToAssistant::SetPin(state))
                            } else {
                                None
                            }
                        }
                    }
                } else {
                    None
                }
            }
        }
    }

    proof fn lemma_round_trip(&self) {
        let e = Self::enc_view(self@);
        match self {
            HostToAssistant::SendUsart(mode, data) => {
                let tail = mode.enc() + enc_bytes(data@);
                assert(e =~= seq![0u8] + tail);
                lemma_dec_u8(0, tail);
                assert(mode.enc() + (enc_bytes(data@) + Seq::<u8>::empty()) =~= tail);
                mode.lemma_dec(enc_bytes(data@) + Seq::<u8>::empty());
                lemma_dec_bytes(data@, Seq::<u8>::empty());
                assert(enc_bytes(data@) + Seq::<u8>::empty() =~= enc_bytes(data@));
                assert(Self::dec(e) == Some(self@));
            }
            HostToAssistant::SetPin(state) => {
                assert(e =~= seq![1u8] + state.enc());
                lemma_dec_u8(1, state.enc());
                assert(state.enc() + Seq::<u8>::empty() =~= state.enc());
                state.lemma_dec(Seq::<u8>::empty());
                assert(Self::dec(e) == Some(self@));
            }
        }
    }
}

/// A message from a node of the notification-push family to the host.
#[derive(Clone, Debug, PartialEq, Eq)]
pub enum AssistantToHost {
    /// Bytes arrived from the target via USART.
    UsartReceive(Vec<u8>),
    /// The level of a monitored pin changed.
    PinLevelChanged(LevelChanged<InputPin>),
}

/// Abstract value of a notification-push [`AssistantToHost`] message.
pub enum AssistantToHostView {
    UsartReceive(Seq<u8>),
    PinLevelChanged(LevelChanged<InputPin>),
}

impl View for AssistantToHost {
    type V = AssistantToHostView;

    open spec fn view(&self) -> AssistantToHostView {
        match self {
            AssistantToHost::UsartReceive(data) => AssistantToHostView::UsartReceive(data@),
            AssistantToHost::PinLevelChanged(lc) => AssistantToHostView::PinLevelChanged(*lc),
        }
    }
}

impl WireMessage for AssistantToHost {
    open spec fn wf(&self) -> bool {
        match self {
            AssistantToHost::UsartReceive(data) => data@.len() <= u32::MAX,
            _ => true,
        }
    }

    open spec fn enc_view(v: AssistantToHostView) -> Seq<u8> {
        match v {
            AssistantToHostView::UsartReceive(data) => seq![0u8] + enc_bytes(data),
            AssistantToHostView::PinLevelChanged(lc) => seq![1u8] + lc.enc(),
        }
    }

    open spec fn dec(s: Seq<u8>) -> Option<AssistantToHostView> {
        match dec_u8(s) {
            Option::None => None,
            Option::Some((d, r)) => {
                if d == 0 {
                    match dec_bytes(r) {
                        Option::None => None,
                        Option::Some((data, r2)) => {
                            if r2.len() == 0 {
                                Some(AssistantToHostView::UsartReceive(data))
                            } else {
                                None
                            }
                        }
                    }
                } else if d == 1 {
                    match LevelChanged::<InputPin>::dec(r) {
                        Option::None => None,
                        Option::Some((lc, r2)) => {
                            if r2.len() == 0 {
                                Some(AssistantToHostView::PinLevelChanged(lc))
                            } else {
                                None
                            }
                        }
                    }
                } else {
                    None
                }
            }
        }
    }

    fn encode(&self, out: &mut Vec<u8>) {
        match self {
            AssistantToHost::UsartReceive(data) => {
                put_u8(out, 0);
                put_bytes(out, data.as_slice());
            }
            AssistantToHost::PinLevelChanged(lc) => {
                put_u8(out, 1);
                lc.put(out);
            }
        }
        assert(out@ =~= old(out)@ + Self::enc_view(self@));
    }

    fn decode(buf: &[u8]) -> (r: Option<Self>) {
        let ghost s = buf@;
        proof {
            assert(s.skip(0) =~= s);
        }
        let n = buf.len();
        match get_u8(buf, 0) {
            None => None,
            Some((d, p)) => {
                if d == 0 {
                    match get_bytes(buf, p) {
                        None => None,
                        Some((data, p2)) => {
                            if p2 == n {
                                proof {
                                    assert(s.skip(p2 as int) =~= Seq::<u8>::empty());
                                }
                                Some(AssistantToHost::UsartReceive(data))
                            } else {
                                None
                            }
                        }
                    }
                } else if d == 1 {
                    match LevelChanged::<InputPin>::get(buf, p) {
                        None => None,
                        Some((lc, p2)) => {
                            if p2 == n {
                                proof {
                                    assert(s.skip(p2 as int) =~= Seq::<u8>::empty());
                                }
                                Some(AssistantToHost::PinLevelChanged(lc))
                            } else {
                                None
                            }
                        }
                    }
                } else {
                    None
                }
            }
        }
    }

    proof fn lemma_round_trip(&self) {
        let e = Self::enc_view(self@);
        match self {
            AssistantToHost::UsartReceive(data) => {
                assert(e =~= seq![0u8] + enc_bytes(data@));
                lemma_dec_u8(0, enc_bytes(data@));
                lemma_dec_bytes(data@, Seq::<u8>::empty());
                assert(enc_bytes(data@) + Seq::<u8>::empty() =~= enc_bytes(data@));
                assert(Self::dec(e) == Some(self@));
            }
            AssistantToHost::PinLevelChanged(lc) => {
                assert(e =~= seq![1u8] + lc.enc());
                lemma_dec_u8(1, lc.enc());
                assert(lc.enc() + Seq::<u8>::empty() =~= lc.enc());
                lc.lemma_dec(Seq::<u8>::empty());
                assert(Self::dec(e) == Some(self@));
            }
        }
    }
}

} // verus!
