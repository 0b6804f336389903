//! Remote control and monitoring of pins on a test node.
//!
//! [`Pin`] speaks the request/reply style: it sends a read request and
//! expects a result message back. [`Pins`] speaks the notification-push
//! style: it drains level-changed notifications and keeps the last one. Both
//! are generic over the message family of the link, through small wrapping
//! traits.

use vstd::prelude::*;

use crate::conn::Conn;
use crate::conn::ConnReceiveError;
use crate::conn::ConnSendError;
use crate::conn::first_frame_view;
use crate::conn::first_zero;
use crate::conn::frame_consumed;
use crate::conn::io_partial;
use crate::pin::Level;
use crate::pin::LevelChanged;
use crate::pin::PinId;
use crate::pin::ReadLevel;
use crate::pin::ReadLevelResult;
use crate::pin::SetLevel;
use crate::port::Port;
use crate::wire::WireMessage;
use crate::wire::dec_frame;
use crate::wire::message_frame;

verus! {

/// A message family that can carry a "set this pin" command.
pub trait WrapSetLevel<Id: PinId>: WireMessage {
    /// The message value that carries `cmd`.
    spec fn set_level_msg(cmd: SetLevel<Id>) -> Self::V;

    /// Wraps `cmd` into a message.
    fn wrap_set_level(cmd: SetLevel<Id>) -> (m: Self)
        ensures
            m@ == Self::set_level_msg(cmd),
            m.wf(),
    ;
}

/// A message family that can carry a "read this pin" request.
pub trait WrapReadLevel<Id: PinId>: WireMessage {
    /// The message value that carries `req`.
    spec fn read_level_msg(req: ReadLevel<Id>) -> Self::V;

    /// Wraps `req` into a message.
    fn wrap_read_level(req: ReadLevel<Id>) -> (m: Self)
        ensures
            m@ == Self::read_level_msg(req),
            m.wf(),
    ;
}

/// A message family whose messages may carry a read-level result.
pub trait ReadLevelReply<Id: PinId>: WireMessage {
    /// The result carried by a message value, if it is a reply holding one.
    spec fn read_result(v: Self::V) -> Option<ReadLevelResult<Id>>;

    /// Extracts the result, if this message is a reply holding one.
    fn into_read_result(self) -> (r: Option<ReadLevelResult<Id>>)
        ensures
            r == Self::read_result(self@),
    ;
}

/// A message family whose messages may carry a level-changed notification.
pub trait LevelChangedReply<Id: PinId>: WireMessage {
    /// The notification carried by a message value, if any.
    spec fn level_changed(v: Self::V) -> Option<LevelChanged<Id>>;

    /// Extracts the notification, if this message carries one.
    fn into_level_changed(self) -> (r: Option<LevelChanged<Id>>)
        ensures
            r == Self::level_changed(self@),
    ;
}

/// Failure while reading a pin's level remotely.
#[derive(Clone, Copy, Debug, PartialEq, Eq, Structural)]
pub enum ReadLevelError {
    /// The request could not be sent.
    Send(ConnSendError),
    /// The reply could not be received or decoded.
    Receive(ConnReceiveError),
    /// A message arrived that is not the awaited reply.
    UnexpectedMessage,
    /// No level was learned within the allotted time.
    Timeout,
}

/// Full contract of a request/reply pin read over the link's streams: what
/// was sent, what the stream's first frame must have decoded to for each
/// outcome, and what is left of the stream.
pub open spec fn read_level_post<Id: PinId, Request: WrapReadLevel<Id>, Reply: ReadLevelReply<Id>>(
    r: Result<(Level, Option<u32>), ReadLevelError>,
    id: Id,
    inc: Seq<u8>,
    fin: Seq<u8>,
    sent0: Seq<u8>,
    sent1: Seq<u8>,
) -> bool {
    let req = message_frame::<Request>(Request::read_level_msg(ReadLevel { pin: id }));
    match r {
        Ok((level, period)) => {
            &&& sent1 == sent0 + req
            &&& first_zero(inc) >= 0
            &&& fin == inc.skip(first_zero(inc) + 1)
            &&& dec_frame::<Reply>(inc.take(first_zero(inc) + 1)) matches Some(v)
                && Reply::read_result(v) matches Some(rlr) && rlr.pin == id && level == rlr.level
                && period == rlr.period_ms
        },
        Err(ReadLevelError::Send(_)) => {
            &&& sent1 == sent0
            &&& fin == inc
        },
        Err(ReadLevelError::Receive(e)) => {
            &&& sent1 == sent0 + req
            &&& (e.0 is Io ==> exists|j: int|
                {
                    &&& 0 <= j <= inc.len()
                    &&& fin == #[trigger] inc.skip(j)
                    &&& forall|i: int| 0 <= i < j ==> inc[i] != 0
                })
            &&& (e.0 is Decode ==> first_zero(inc) >= 0 && fin == inc.skip(first_zero(inc) + 1)
                && dec_frame::<Reply>(inc.take(first_zero(inc) + 1)) is None)
        },
        Err(ReadLevelError::UnexpectedMessage) => {
            &&& sent1 == sent0 + req
            &&& first_zero(inc) >= 0
            &&& fin == inc.skip(first_zero(inc) + 1)
            &&& dec_frame::<Reply>(inc.take(first_zero(inc) + 1)) matches Some(v) && (
            Reply::read_result(v) is None || (Reply::read_result(v) matches Some(rlr) && rlr.pin
                != id))
        },
        Err(ReadLevelError::Timeout) => false,
    }
}

/// Remote control of one pin on a test node, request/reply style.

pub struct Pin<Id> {
    pin: Id,
}

impl<Id: PinId + Copy> Pin<Id> {
    /// The pin this handle controls.
    pub closed spec fn id(&self) -> Id {
        self.pin
    }

    /// A handle for the given pin.
    pub fn new(pin: Id) -> (p: Pin<Id>)
        ensures
            p.id() == pin,
    {
        Pin { pin }
    }

    /// Commands the node to set this pin to `level`.
    pub fn set_level<P: Port, M: WrapSetLevel<Id>>(
        &mut self,
        level: Level,
        conn: &mut Conn<P>,
    ) -> (r: Result<(), ConnSendError>)
        ensures
            final(self).id() == old(self).id(),
            final(conn).incoming() == old(conn).incoming(),
            r is Ok ==> final(conn).sent() == old(conn).sent() + message_frame::<M>(
                M::set_level_msg(SetLevel { pin: old(self).id(), level }),
            ),
            r is Err ==> final(conn).sent() == old(conn).sent(),
    {
        let command = SetLevel { pin: self.pin, level };
        let message: M = M::wrap_set_level(command);
        conn.send(&message)
    }

    /// Sends a read request for this pin and decodes the reply.
    ///
    /// Succeeds exactly when the stream's first frame is a reply carrying a
    /// result for this pin; the result is that level and period.
    pub fn read_level<P: Port, Request: WrapReadLevel<Id>, Reply: ReadLevelReply<Id>>(
        &mut self,
        timeout_ms: u64,
        conn: &mut Conn<P>,
    ) -> (r: Result<(Level, Option<u32>), ReadLevelError>)
        ensures
            final(self).id() == old(self).id(),
            read_level_post::<Id, Request, Reply>(
                r,
                old(self).id(),
                old(conn).incoming(),
                final(conn).incoming(),
                old(conn).sent(),
                final(conn).sent(),
            ),
    {
        let request = ReadLevel { pin: self.pin };
        let request: Request = Request::wrap_read_level(request);
        match conn.send(&request) {
            Ok(()) => (),
            Err(e) => {
                return Err(ReadLevelError::Send(e));
            }
        }
        let reply: Reply = match conn.receive::<Reply>(timeout_ms) {
            Ok(m) => m,
            Err(e) => {
                return Err(ReadLevelError::Receive(e));
            }
        };
        match reply.into_read_result() {
            Some(rlr) => {
                if rlr.pin.same(&self.pin) {
                    Ok((rlr.level, rlr.period_ms))
                } else {
                    Err(ReadLevelError::UnexpectedMessage)
                }
            }
            None => Err(ReadLevelError::UnexpectedMessage),
        }
    }
}

/// What draining `k` matching level-changed notifications from the stream
/// `inc` leaves: the payload of the last one (if any) and the rest of the
/// stream. `None` when the stream's first `k` frames are not all matching
/// notifications.
pub open spec fn drained_levels<Id: PinId, M: LevelChangedReply<Id>>(
    inc: Seq<u8>,
    pin: Id,
    k: nat,
) -> Option<(Option<(Level, Option<u32>)>, Seq<u8>)>
    decreases k,
{
    if k == 0 {
        Some((None, inc))
    } else {
        match drained_levels::<Id, M>(inc, pin, (k - 1) as nat) {
            Option::None => None,
            Option::Some((last, rest)) => {
                if first_zero(rest) >= 0 {
                    let f = rest.take(first_zero(rest) + 1);
                    let rest2 = rest.skip(first_zero(rest) + 1);
                    match dec_frame::<M>(f) {
                        Option::None => None,
                        Option::Some(v) => match M::level_changed(v) {
                            Option::None => None,
                            Option::Some(lc) => {
                                if lc.pin == pin {
                                    Some((Some((lc.level, lc.period_ms)), rest2))
                                } else {
                                    None
                                }
                            }
                        },
                    }
                } else {
                    None
                }
            }
        }
    }
}

/// After draining `k` matching notifications (the last one carrying `last`),
/// a further zero-free prefix of length `j` was consumed by a read that timed
/// out, leaving `fin`.
pub open spec fn drain_step<Id: PinId, M: LevelChangedReply<Id>>(
    inc: Seq<u8>,
    pin: Id,
    k: nat,
    last: Option<(Level, Option<u32>)>,
    fin: Seq<u8>,
    j: int,
) -> bool {
    match drained_levels::<Id, M>(inc, pin, k) {
        Option::None => false,
        Option::Some((l, rest)) => {
            &&& l == last
            &&& 0 <= j <= rest.len()
            &&& fin == rest.skip(j)
            &&& forall|i: int| 0 <= i < j ==> rest[i] != 0
        }
    }
}

/// The drain's overall outcome: for some number of drained matching
/// notifications and some trailing zero-free prefix a timed-out read
/// consumed, the last notification carried `last` and `fin` is what remains.
pub open spec fn drained_outcome<Id: PinId, M: LevelChangedReply<Id>>(
    inc: Seq<u8>,
    pin: Id,
    last: Option<(Level, Option<u32>)>,
    fin: Seq<u8>,
) -> bool {
    exists|k: nat, j: int| drain_step::<Id, M>(inc, pin, k, last, fin, j)
}

/// The drain ended with `level` as the last reported level, whatever period
/// came with it.
pub open spec fn drained_level_of<Id: PinId, M: LevelChangedReply<Id>>(
    inc: Seq<u8>,
    pin: Id,
    level: Level,
    fin: Seq<u8>,
) -> bool {
    exists|period: Option<u32>|
        drained_outcome::<Id, M>(inc, pin, Some((level, period)), fin)
}

/// After draining some matching notifications, a receive failed: a
/// transport failure left a zero-free prefix of the rest consumed, a decode
/// failure consumed the rest's first frame.
pub open spec fn drained_then_failed<Id: PinId, M: LevelChangedReply<Id>>(
    inc: Seq<u8>,
    pin: Id,
    e: ConnReceiveError,
    fin: Seq<u8>,
) -> bool {
    exists|k: nat|
        {
            &&& (#[trigger] drained_levels::<Id, M>(inc, pin, k)) matches Some((last, rest))
            &&& (e.0 is Io ==> io_partial(rest, fin))
            &&& (e.0 is Decode ==> frame_consumed(rest, fin) && first_frame_view::<M>(
                rest,
            ) is None)
        }
}

/// After draining some matching notifications, the stream's next frame
/// decoded to a message that is not a matching notification, and was
/// consumed, leaving `fin`.
pub open spec fn drained_then_unexpected<Id: PinId, M: LevelChangedReply<Id>>(
    inc: Seq<u8>,
    pin: Id,
    fin: Seq<u8>,
) -> bool {
    exists|k: nat| drain_unexpected::<Id, M>(inc, pin, k, fin)
}

/// After draining `k` matching notifications, the stream's next frame
/// decoded to a message that is not a matching notification, and was
/// consumed, leaving `fin`.
pub open spec fn drain_unexpected<Id: PinId, M: LevelChangedReply<Id>>(
    inc: Seq<u8>,
    pin: Id,
    k: nat,
    fin: Seq<u8>,
) -> bool {
    match drained_levels::<Id, M>(inc, pin, k) {
        Option::None => false,
        Option::Some((l, rest)) => {
            &&& first_zero(rest) >= 0
            &&& fin == rest.skip(first_zero(rest) + 1)
            &&& match dec_frame::<M>(rest.take(first_zero(rest) + 1)) {
                Option::None => false,
                Option::Some(v) => match M::level_changed(v) {
                    Option::None => true,
                    Option::Some(lc) => lc.pin != pin,
                },
            }
        }
    }
}

/// Remote monitoring of pins on a node of the notification-push family.
pub struct Pins;


impl Pins {
    /// A handle for the node's pins.
    pub fn new() -> (p: Pins) {
        Pins
    }

    /// Commands the node to set `pin` to `level`.
    pub fn set_level<P: Port, Id: PinId + Copy, M: WrapSetLevel<Id>>(
        &mut self,
        pin: Id,
        level: Level,
        conn: &mut Conn<P>,
    ) -> (r: Result<(), ConnSendError>)
        ensures
            final(conn).incoming() == old(conn).incoming(),
            r is Ok ==> final(conn).sent() == old(conn).sent() + message_frame::<M>(
                M::set_level_msg(SetLevel { pin, level }),
            ),
            r is Err ==> final(conn).sent() == old(conn).sent(),
    {
        let command = SetLevel { pin, level };
        let message: M = M::wrap_set_level(command);
        conn.send(&message)
    }

    /// Drains level-changed notifications for `expected_pin` until the time
    /// budget runs out, returning the last level seen.
    ///
    /// Succeeds exactly when at least one matching notification was drained;
    /// the result is the last one's level and period. Returns `Timeout` when
    /// none arrived in time, `UnexpectedMessage` when a frame arrived that is
    /// not a matching notification.
    pub fn read_level<P: Port, Id: PinId + Copy, M: LevelChangedReply<Id>>(
        &mut self,
        expected_pin: Id,
        timeout_ms: u64,
        conn: &mut Conn<P>,
    ) -> (r: Result<(Level, Option<u32>), ReadLevelError>)
        ensures
            final(conn).sent() == old(conn).sent(),
            r matches Err(ReadLevelError::Timeout) ==> final(conn).now() >= old(conn).now()
                + timeout_ms || final(conn).now() == u64::MAX,
            ({
                let inc = old(conn).incoming();
                let fin = final(conn).incoming();
                match r {
                    Ok((level, period)) => drained_outcome::<Id, M>(
                        inc,
                        expected_pin,
                        Some((level, period)),
                        fin,
                    ),
                    Err(ReadLevelError::Timeout) => drained_outcome::<Id, M>(
                        inc,
                        expected_pin,
                        None,
                        fin,
                    ),
                    Err(ReadLevelError::Receive(e)) => !e.timed_out()
                        && drained_then_failed::<Id, M>(inc, expected_pin, e, fin),
                    Err(ReadLevelError::UnexpectedMessage) => drained_then_unexpected::<Id, M>(
                        inc,
                        expected_pin,
                        fin,
                    ),
                    Err(ReadLevelError::Send(_)) => false,
                }
            }),
    {
        let ghost inc = conn.incoming();
        let ghost mut k: nat = 0;
        let start = conn.now_ms();
        let mut pin_level: Option<(Level, Option<u32>)> = None;
        loop
            invariant
                inc == old(conn).incoming(),
                conn.sent() == old(conn).sent(),
                conn.now() >= start,
                start >= old(conn).now(),
                drained_levels::<Id, M>(inc, expected_pin, k) == Some(
                    (pin_level, conn.incoming()),
                ),
            decreases conn.incoming().len(),
        {
            let now = conn.now_ms();
            let elapsed = if now >= start {
                now - start
            } else {
                0
            };
            if elapsed > timeout_ms {
                proof {
                    let rest0 = conn.incoming();
                    assert(rest0.skip(0) =~= rest0);
                    assert(drain_step::<Id, M>(inc, expected_pin, k, pin_level, rest0, 0));
                }
                return match pin_level {
                    Some(pin_level) => Ok(pin_level),
                    None => Err(ReadLevelError::Timeout),
                };
            }
            let remaining = timeout_ms - elapsed;
            let ghost rest0 = conn.incoming();
            let ghost now0 = conn.now();
            let message = match conn.receive::<M>(remaining) {
                Ok(m) => m,
                Err(e) => {
                    if e.is_timeout() {
                        proof {
                            assert(now0 == now);
                            assert(now - start + remaining == timeout_ms);
                        }
                        proof {
                            let j = choose|j: int|
                                {
                                    &&& 0 <= j <= rest0.len()
                                    &&& conn.incoming() == #[trigger] rest0.skip(j)
                                    &&& forall|i: int| 0 <= i < j ==> rest0[i] != 0
                                };
                            assert(drain_step::<Id, M>(
                                inc,
                                expected_pin,
                                k,
                                pin_level,
                                conn.incoming(),
                                j,
                            ));
                        }
                        return match pin_level {
                            Some(pin_level) => Ok(pin_level),
                            None => Err(ReadLevelError::Timeout),
                        };
                    }
                    return Err(ReadLevelError::Receive(e));
                }
            };
            match message.into_level_changed() {
                Some(lc) => {
                    if lc.pin.same(&expected_pin) {
                        pin_level = Some((lc.level, lc.period_ms));
                        proof {
                            k = k + 1;
                            assert(drained_levels::<Id, M>(inc, expected_pin, k) == Some(
                                (pin_level, conn.incoming()),
                            ));
                        }
                    } else {
                        proof {
                            assert(drain_unexpected::<Id, M>(
                                inc,
                                expected_pin,
                                k,
                                conn.incoming(),
                            ));
                        }
                        return Err(ReadLevelError::UnexpectedMessage);
                    }
                }
                None => {
                    proof {
                        assert(drain_unexpected::<Id, M>(inc, expected_pin, k, conn.incoming()));
                    }
                    return Err(ReadLevelError::UnexpectedMessage);
                }
            }
            proof {
                crate::conn::lemma_first_zero(rest0);
            }
        }
    }
}

impl WrapSetLevel<crate::protocol::OutputPin> for crate::protocol::HostToAssistant {
    open spec fn set_level_msg(cmd: SetLevel<crate::protocol::OutputPin>) -> Self::V {
        crate::protocol::HostToAssistantView::SetPin(cmd)
    }

    fn wrap_set_level(cmd: SetLevel<crate::protocol::OutputPin>) -> (m: Self) {
        crate::protocol::HostToAssistant::SetPin(cmd)
    }
}

impl WrapReadLevel<crate::protocol::InputPin> for crate::protocol::HostToAssistant {
    open spec fn read_level_msg(req: ReadLevel<crate::protocol::InputPin>) -> Self::V {
        crate::protocol::HostToAssistantView::ReadPin(req)
    }

    fn wrap_read_level(req: ReadLevel<crate::protocol::InputPin>) -> (m: Self) {
        crate::protocol::HostToAssistant::ReadPin(req)
    }
}

impl ReadLevelReply<crate::protocol::InputPin> for crate::protocol::AssistantToHost {
    open spec fn read_result(v: Self::V) -> Option<ReadLevelResult<crate::protocol::InputPin>> {
        match v {
            crate::protocol::AssistantToHostView::ReadPinResult(r) => match r {
                Option::Some(rlr) => Some(rlr),
                Option::None => None,
            },
            _ => None,
        }
    }

    fn into_read_result(self) -> (r: Option<ReadLevelResult<crate::protocol::InputPin>>) {
        match self {
            crate::protocol::AssistantToHost::ReadPinResult(Some(rlr)) => Some(rlr),
            _ => None,
        }
    }
}

impl WrapSetLevel<()> for crate::messages::HostToTarget {
    open spec fn set_level_msg(cmd: SetLevel<()>) -> Self::V {
        crate::messages::HostToTargetView::SetPin(cmd)
    }

    fn wrap_set_level(cmd: SetLevel<()>) -> (m: Self) {
        crate::messages::HostToTarget::SetPin(cmd)
    }
}

impl WrapReadLevel<()> for crate::messages::HostToTarget {
    open spec fn read_level_msg(req: ReadLevel<()>) -> Self::V {
        crate::messages::HostToTargetView::ReadPin(req)
    }

    fn wrap_read_level(req: ReadLevel<()>) -> (m: Self) {
        crate::messages::HostToTarget::ReadPin(req)
    }
}

impl ReadLevelReply<()> for crate::messages::TargetToHost {
    open spec fn read_result(v: Self::V) -> Option<ReadLevelResult<()>> {
        match v {
            crate::messages::TargetToHostView::ReadPinResult(r) => match r {
                Option::Some(rlr) => Some(rlr),
                Option::None => None,
            },
            _ => None,
        }
    }

    fn into_read_result(self) -> (r: Option<ReadLevelResult<()>>) {
        match self {
            crate::messages::TargetToHost::ReadPinResult(Some(rlr)) => Some(rlr),
            _ => None,
        }
    }
}

impl LevelChangedReply<()> for crate::messages::TargetToHost {
    open spec fn level_changed(v: Self::V) -> Option<LevelChanged<()>> {
        match v {
            crate::messages::TargetToHostView::PinLevelChanged { level } => Some(
                LevelChanged { pin: (), level, period_ms: None },
            ),
            _ => None,
        }
    }

    fn into_level_changed(self) -> (r: Option<LevelChanged<()>>) {
        match self {
            crate::messages::TargetToHost::PinLevelChanged { level } => Some(
                LevelChanged { pin: (), level, period_ms: None },
            ),
            _ => None,
        }
    }
}

impl LevelChangedReply<crate::protocol::InputPin> for crate::notify::AssistantToHost {
    open spec fn level_changed(v: Self::V) -> Option<LevelChanged<crate::protocol::InputPin>> {
        match v {
            crate::notify::AssistantToHostView::PinLevelChanged(lc) => Some(lc),
            _ => None,
        }
    }

    fn into_level_changed(self) -> (r: Option<LevelChanged<crate::protocol::InputPin>>) {
        match self {
            crate::notify::AssistantToHost::PinLevelChanged(lc) => Some(lc),
            _ => None,
        }
    }
}

} // verus!

