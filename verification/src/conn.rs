//! A host-side connection to a firmware node.
//!
//! `send` frames a message and writes it out; `receive` accumulates bytes
//! until the `0x00` terminator completes a frame, then decodes it. The
//! contract pins both down against the port's byte streams: what `send`
//! appends to the wire, and that `receive` consumes exactly the stream's
//! first frame and returns its decoded message.

use vstd::prelude::*;

use crate::port::IoError;
use crate::port::Port;
use crate::wire::WireMessage;
use crate::wire::dec_frame;
use crate::wire::decode_frame;
use crate::wire::encode_frame;
use crate::wire::message_frame;

verus! {

/// A low-level failure of a connection.
#[derive(Clone, Copy, Debug, PartialEq, Eq, Structural)]
pub enum Error {
    /// The transport failed or timed out.
    Io(IoError),
    /// An accumulated frame did not decode to a message.
    Decode,
}

/// Error sending a message through a connection.
#[derive(Clone, Copy, Debug, PartialEq, Eq, Structural)]
pub struct ConnSendError(pub Error);

/// Error receiving a message from a connection.
#[derive(Clone, Copy, Debug, PartialEq, Eq, Structural)]
pub struct ConnReceiveError(pub Error);

impl ConnReceiveError {
    /// Whether this failure is the routine one: nothing arrived in time.
    pub open spec fn timed_out(&self) -> bool {
        self.0 == Error::Io(IoError::TimedOut)
    }

    /// Whether this failure is the routine one: nothing arrived in time.
    pub fn is_timeout(&self) -> (r: bool)
        ensures
            r == self.timed_out(),
    {
        match self.0 {
            Error::Io(IoError::TimedOut) => true,
            _ => false,
        }
    }
}

/// Index of the first `0x00` in `s`, or a negative value if there is none.
/// The bytes up to and including it form the stream's first frame.
pub open spec fn first_zero(s: Seq<u8>) -> int
    decreases s.len(),
{
    if s.len() == 0 {
        -1
    } else if s[0] == 0 {
        0
    } else {
        let r = first_zero(s.drop_first());
        if r < 0 {
            -1
        } else {
            1 + r
        }
    }
}

pub proof fn lemma_first_zero(s: Seq<u8>)
    ensures
        first_zero(s) >= 0 ==> {
            &&& first_zero(s) < s.len()
            &&& s[first_zero(s)] == 0
            &&& forall|i: int| 0 <= i < first_zero(s) ==> s[i] != 0
        },
        first_zero(s) < 0 ==> forall|i: int| 0 <= i < s.len() ==> s[i] != 0,
    decreases s.len(),
{
    if s.len() == 0 || s[0] == 0 {
    } else {
        lemma_first_zero(s.drop_first());
        let r = first_zero(s.drop_first());
        if r >= 0 {
            assert forall|i: int| 0 <= i < first_zero(s) implies s[i] != 0 by {
                if i > 0 {
                    assert(s.drop_first()[i - 1] != 0);
                }
            }
        } else {
            assert forall|i: int| 0 <= i < s.len() implies s[i] != 0 by {
                if i > 0 {
                    assert(s.drop_first()[i - 1] != 0);
                }
            }
        }
    }
}

/// The first zero is exactly where a zero follows a zero-free prefix.
pub proof fn lemma_first_zero_at(s: Seq<u8>, j: int)
    requires
        0 <= j < s.len(),
        s[j] == 0,
        forall|i: int| 0 <= i < j ==> s[i] != 0,
    ensures
        first_zero(s) == j,
    decreases j,
{
    if j == 0 {
    } else {
        assert(s.drop_first()[j - 1] == 0);
        assert forall|i: int| 0 <= i < j - 1 implies s.drop_first()[i] != 0 by {
            assert(s[i + 1] != 0);
        }
        lemma_first_zero_at(s.drop_first(), j - 1);
    }
}

/// A connection to a firmware node, over any byte port.
pub struct Conn<P: Port> {
    port: P,
}

impl<P: Port> Conn<P> {
    /// Bytes that have arrived on the port and were not yet consumed.
    pub closed spec fn incoming(&self) -> Seq<u8> {
        self.port.incoming()
    }

    /// Bytes written to the port so far.
    pub closed spec fn sent(&self) -> Seq<u8> {
        self.port.sent()
    }

    /// The port clock's reading, in milliseconds.
    pub closed spec fn now(&self) -> u64 {
        self.port.now()
    }

    /// Wraps an open port.
    pub fn new(port: P) -> (c: Conn<P>)
        ensures
            c.incoming() == port.incoming(),
            c.sent() == port.sent(),
    {
        Conn { port }
    }

    /// Hands the port back, consuming the connection.
    pub fn into_port(self) -> (p: P)
        ensures
            p.incoming() == self.incoming(),
            p.sent() == self.sent(),
    {
        self.port
    }

    /// Reads the port's clock, in milliseconds. The clock never runs
    /// backwards.
    pub fn now_ms(&mut self) -> (t: u64)
        ensures
            final(self).incoming() == old(self).incoming(),
            final(self).sent() == old(self).sent(),
            t == final(self).now(),
            t >= old(self).now(),
    {
        self.port.now_ms()
    }

    /// Encodes `message`, frames it and writes the whole frame to the port.
    pub fn send<M: WireMessage>(&mut self, message: &M) -> (r: Result<(), ConnSendError>)
        requires
            message.wf(),
        ensures
            final(self).incoming() == old(self).incoming(),
            final(self).now() >= old(self).now(),
            r is Ok ==> final(self).sent() == old(self).sent() + message_frame::<M>(message@),
            r is Err ==> final(self).sent() == old(self).sent(),
    {
        let frame = encode_frame(message);
        match self.port.write_all(frame.as_slice()) {
            Ok(()) => Ok(()),
            Err(e) => Err(ConnSendError(Error::Io(e))),
        }
    }

    /// Accumulates bytes until a `0x00` completes a frame, then decodes it.
    ///
    /// On success the stream's first frame has been consumed, no more, and
    /// the result is its decoded message. A decode failure also consumes
    /// exactly that frame. A transport failure (the timeout included) leaves
    /// some zero-free prefix of the stream consumed.
    pub fn receive<M: WireMessage>(&mut self, timeout_ms: u64) -> (r: Result<
        M,
        ConnReceiveError,
    >)
        ensures
            final(self).sent() == old(self).sent(),
            final(self).now() >= old(self).now(),
            r matches Err(e) && e.timed_out() ==> final(self).now() >= old(self).now()
                + timeout_ms || final(self).now() == u64::MAX,
            ({
                let inc = old(self).incoming();
                match r {
                    Ok(m) => {
                        &&& first_zero(inc) >= 0
                        &&& final(self).incoming() == inc.skip(first_zero(inc) + 1)
                        &&& dec_frame::<M>(inc.take(first_zero(inc) + 1)) == Some(m@)
                        &&& m.wf()
                    },
                    Err(e) => match e.0 {
                        Error::Decode => {
                            &&& first_zero(inc) >= 0
                            &&& final(self).incoming() == inc.skip(first_zero(inc) + 1)
                            &&& dec_frame::<M>(inc.take(first_zero(inc) + 1)) is None
                        },
                        Error::Io(_) => exists|j: int|
                            {
                                &&& 0 <= j <= inc.len()
                                &&& final(self).incoming() == #[trigger] inc.skip(j)
                                &&& forall|i: int| 0 <= i < j ==> inc[i] != 0
                            },
                    },
                }
            }),
    {
        let ghost inc = self.port.incoming();
        let mut buf: Vec<u8> = Vec::new();
        proof {
            assert(buf@ =~= inc.take(0));
            assert(self.port.incoming() =~= inc.skip(0));
        }
        loop
            invariant
                buf@.len() <= inc.len(),
                buf@ == inc.take(buf@.len() as int),
                forall|i: int| 0 <= i < buf@.len() ==> inc[i] != 0,
                self.port.incoming() == inc.skip(buf@.len() as int),
                self.port.sent() == old(self).sent(),
                self.port.now() >= old(self).now(),
                inc == old(self).incoming(),
            decreases inc.len() - buf@.len(),
        {
            let b = match self.port.read_byte(timeout_ms) {
                Ok(b) => b,
                Err(e) => {
                    proof {
                        let j = buf@.len() as int;
                        assert(self.port.incoming() == inc.skip(j));
                    }
                    return Err(ConnReceiveError(Error::Io(e)));
                }
            };
            proof {
                assert(inc.skip(buf@.len() as int).drop_first() =~= inc.skip(buf@.len() as int + 1));
                assert(inc.skip(buf@.len() as int)[0] == inc[buf@.len() as int]);
            }
            buf.push(b);
            proof {
                assert(buf@ =~= inc.take(buf@.len() as int));
            }
            if b == 0 {
                proof {
                    lemma_first_zero_at(inc, buf@.len() - 1);
                }
                return match decode_frame::<M>(buf.as_slice()) {
                    Some(m) => Ok(m),
                    None => Err(ConnReceiveError(Error::Decode)),
                };
            }
        }
    }
}

/// Exactly the stream's first frame (terminator included) was consumed:
/// `fin` is what follows it.
pub open spec fn frame_consumed(inc: Seq<u8>, fin: Seq<u8>) -> bool {
    first_zero(inc) >= 0 && fin == inc.skip(first_zero(inc) + 1)
}

/// The decoded value of the stream's first frame.
pub open spec fn first_frame_view<M: WireMessage>(inc: Seq<u8>) -> Option<M::V> {
    dec_frame::<M>(inc.take(first_zero(inc) + 1))
}

/// Some zero-free prefix of the stream was consumed (what a read that fails
/// mid-frame leaves behind).
pub open spec fn io_partial(inc: Seq<u8>, fin: Seq<u8>) -> bool {
    exists|j: int|
        {
            &&& 0 <= j <= inc.len()
            &&& fin == #[trigger] inc.skip(j)
            &&& forall|i: int| 0 <= i < j ==> inc[i] != 0
        }
}

} // verus!

