//! Waiting for expected bytes to arrive over a USART, amid unrelated
//! traffic.
//!
//! The host keeps receiving "bytes arrived" notifications of the awaited
//! transmission mode, accumulating their payloads, until the accumulated
//! bytes contain the expected run, or the time budget runs out.

use vstd::prelude::*;

use crate::conn::Conn;
use crate::conn::ConnReceiveError;
use crate::conn::first_frame_view;
use crate::conn::io_partial;
use crate::conn::first_zero;
use crate::conn::frame_consumed;
use crate::port::Port;
use crate::protocol::UsartMode;
use crate::search::contains_bytes;
use crate::search::contains_slice;
use crate::wire::WireMessage;
use crate::wire::dec_frame;

verus! {

/// A message family whose messages may carry received USART bytes.
pub trait UsartData: WireMessage {
    /// The transmission mode and payload carried by a message value, if it
    /// is such a notification.
    spec fn usart_payload(v: Self::V) -> Option<(UsartMode, Seq<u8>)>;

    /// Extracts mode and payload, if this message carries them.
    fn into_usart_payload(self) -> (r: Option<(UsartMode, Vec<u8>)>)
        ensures
            match r {
                Some((m, d)) => Self::usart_payload(self@) == Some((m, d@)),
                None => Self::usart_payload(self@) is None,
            },
    ;
}

impl UsartData for crate::protocol::AssistantToHost {
    open spec fn usart_payload(v: Self::V) -> Option<(UsartMode, Seq<u8>)> {
        match v {
            crate::protocol::AssistantToHostView::UsartReceive { mode, data } => Some(
                (mode, data),
            ),
            _ => None,
        }
    }

    fn into_usart_payload(self) -> (r: Option<(UsartMode, Vec<u8>)>) {
        match self {
            crate::protocol::AssistantToHost::UsartReceive { mode, data } => Some((mode, data)),
            _ => None,
        }
    }
}

impl UsartData for crate::messages::TargetToHost {
    open spec fn usart_payload(v: Self::V) -> Option<(UsartMode, Seq<u8>)> {
        match v {
            crate::messages::TargetToHostView::UsartReceive { mode, data } => Some((mode, data)),
            _ => None,
        }
    }

    fn into_usart_payload(self) -> (r: Option<(UsartMode, Vec<u8>)>) {
        match self {
            crate::messages::TargetToHost::UsartReceive { mode, data } => Some((mode, data)),
            _ => None,
        }
    }
}

/// Failure while waiting for bytes over a USART.
#[derive(Clone, Copy, Debug, PartialEq, Eq, Structural)]
pub enum UsartWaitError {
    /// A frame could not be received or decoded.
    Receive(ConnReceiveError),
    /// The expected bytes did not arrive within the time budget.
    Timeout,
    /// A message arrived that is not a notification of the awaited mode.
    UnexpectedMessage,
}

/// What draining `k` matching byte notifications from the stream `inc`
/// leaves: the accumulated payload bytes and the rest of the stream. `None`
/// when the stream's first `k` frames are not all notifications of `mode`.
pub open spec fn drained_usart<M: UsartData>(inc: Seq<u8>, mode: UsartMode, k: nat) -> Option<
    (Seq<u8>, Seq<u8>),
>
    decreases k,
{
    if k == 0 {
        Some((Seq::empty(), inc))
    } else {
        match drained_usart::<M>(inc, mode, (k - 1) as nat) {
            Option::None => None,
            Option::Some((bytes, rest)) => {
                if first_zero(rest) >= 0 {
                    let f = rest.take(first_zero(rest) + 1);
                    let rest2 = rest.skip(first_zero(rest) + 1);
                    match dec_frame::<M>(f) {
                        Option::None => None,
                        Option::Some(v) => match M::usart_payload(v) {
                            Option::None => None,
                            Option::Some((m, d)) => {
                                if m == mode {
                                    Some((bytes + d, rest2))
                                } else {
                                    None
                                }
                            }
                        },
                    }
                } else {
                    None
                }
            }
        }
    }
}

/// After draining `k` matching notifications, the stream's next frame
/// decoded to a message that is not one, and was consumed, leaving `fin`.
pub open spec fn drained_unexpected<M: UsartData>(
    inc: Seq<u8>,
    mode: UsartMode,
    k: nat,
    fin: Seq<u8>,
) -> bool {
    match drained_usart::<M>(inc, mode, k) {
        Option::None => false,
        Option::Some((bytes, rest)) => {
            &&& frame_consumed(rest, fin)
            &&& match first_frame_view::<M>(rest) {
                Option::None => false,
                Option::Some(v) => match M::usart_payload(v) {
                    Option::None => true,
                    Option::Some((m, d)) => m != mode,
                },
            }
        }
    }
}

/// Accumulates the payloads of notifications of `mode` until they contain
/// `data`, returning the accumulated bytes.
///
/// Succeeds exactly when the drained payloads come to contain `data`.
/// Returns `Timeout` when the budget elapses first, `UnexpectedMessage` when
/// a message of another shape or mode arrives, and `Receive` when a frame
/// cannot be read or decoded.
pub fn wait_for_usart<P: Port, M: UsartData>(
    conn: &mut Conn<P>,
    data: &[u8],
    timeout_ms: u64,
    mode: UsartMode,
) -> (r: Result<Vec<u8>, UsartWaitError>)
    ensures
        final(conn).sent() == old(conn).sent(),
        r matches Err(UsartWaitError::Timeout) ==> final(conn).now() > old(conn).now()
            + timeout_ms,
        data@.len() == 0 ==> (r matches Ok(out) && out@ == Seq::<u8>::empty()
            && final(conn).incoming() == old(conn).incoming()),
        ({
            let inc = old(conn).incoming();
            let fin = final(conn).incoming();
            match r {
                Ok(out) => {
                    &&& contains_bytes(out@, data@)
                    &&& exists|k: nat|
                        #[trigger] drained_usart::<M>(inc, mode, k) == Some((out@, fin))
                },
                Err(UsartWaitError::Timeout) => exists|k: nat|
                    (#[trigger] drained_usart::<M>(inc, mode, k)) matches Some((bytes, rest))
                        && !contains_bytes(bytes, data@) && fin == rest,
                Err(UsartWaitError::UnexpectedMessage) => exists|k: nat|
                    drained_unexpected::<M>(inc, mode, k, fin),
                Err(UsartWaitError::Receive(e)) => {
                    &&& exists|k: nat|
                        {
                            &&& (#[trigger] drained_usart::<M>(inc, mode, k)) matches Some(
                                (bytes, rest),
                            )
                            &&& (e.0 is Io ==> io_partial(rest, fin))
                            &&& (e.0 is Decode ==> first_zero(rest) >= 0 && fin == rest.skip(
                                first_zero(rest) + 1,
                            ) && dec_frame::<M>(rest.take(first_zero(rest) + 1)) is None)
                        }
                    &&& (e.timed_out() ==> final(conn).now() >= old(conn).now() + timeout_ms
                        || final(conn).now() == u64::MAX)
                },
            }
        }),
{
    if data.len() == 0 {
        // The empty run is contained in anything: done before touching the
        // port.
        proof {
            assert(Seq::<u8>::empty().subrange(0, 0 + data@.len() as int) =~= data@);
            assert(contains_bytes(Seq::<u8>::empty(), data@));
            assert(drained_usart::<M>(conn.incoming(), mode, 0) == Some(
                (Seq::<u8>::empty(), conn.incoming()),
            ));
        }
        let out: Vec<u8> = Vec::new();
        return Ok(out);
    }
    let ghost inc = conn.incoming();
    let ghost mut k: nat = 0;
    let mut buf: Vec<u8> = Vec::new();
    let start = conn.now_ms();
    loop
        invariant
            data@.len() > 0,
            inc == old(conn).incoming(),
            conn.sent() == old(conn).sent(),
            conn.now() >= start,
            start >= old(conn).now(),
            drained_usart::<M>(inc, mode, k) == Some((buf@, conn.incoming())),
        decreases conn.incoming().len(),
    {
        if contains_slice(buf.as_slice(), data) {
            return Ok(buf);
        }
        let now = conn.now_ms();
        let elapsed = if now >= start {
            now - start
        } else {
            0
        };
        if elapsed > timeout_ms {
            return Err(UsartWaitError::Timeout);
        }
        let remaining = timeout_ms - elapsed;
        let ghost rest0 = conn.incoming();
        let ghost now0 = conn.now();
        let message = match conn.receive::<M>(remaining) {
            Ok(m) => m,
            Err(e) => {
                proof {
                    if e.timed_out() {
                        assert(now0 == now);
                        assert(now - start + remaining == timeout_ms);
                    }
                }
                return Err(UsartWaitError::Receive(e));
            }
        };
        match message.into_usart_payload() {
            Some((m, d)) => {
                if m == mode {
                    let ghost buf0 = buf@;
                    let mut i: usize = 0;
                    while i < d.len()
                        invariant
                            i <= d@.len(),
                            buf@ == buf0 + d@.take(i as int),
                        decreases d@.len() - i,
                    {
                        buf.push(d[i]);
                        assert(buf@ =~= buf0 + d@.take(i + 1));
                        i = i + 1;
                    }
                    proof {
                        assert(d@.take(d@.len() as int) =~= d@);
                        k = k + 1;
                        assert(drained_usart::<M>(inc, mode, k) == Some((buf@, conn.incoming())));
                    }
                } else {
                    proof {
                        assert(drained_unexpected::<M>(inc, mode, k, conn.incoming()));
                    }
                    return Err(UsartWaitError::UnexpectedMessage);
                }
            }
            None => {
                proof {
                    assert(drained_unexpected::<M>(inc, mode, k, conn.incoming()));
                }
                return Err(UsartWaitError::UnexpectedMessage);
            }
        }
        proof {
            crate::conn::lemma_first_zero(rest0);
        }
    }
}

} // verus!
