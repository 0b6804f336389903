//! A raw serial connection to the device under test, for byte-level traffic
//! that does not use the message protocol.

use vstd::prelude::*;

use crate::conn::Error;
use crate::port::IoError;
use crate::port::Port;
use crate::search::ends_with;
use crate::search::ends_with_slice;

verus! {

/// Error sending raw bytes over the serial connection.
#[derive(Clone, Copy, Debug, PartialEq, Eq, Structural)]
pub struct SerialSendError(pub IoError);

/// Error waiting for raw bytes on the serial connection.
#[derive(Clone, Copy, Debug, PartialEq, Eq, Structural)]
pub struct SerialWaitError(pub Error);

/// A serial-to-USB converter connected to the device under test.
pub struct Serial<P: Port> {
    port: P,
}

impl<P: Port> Serial<P> {
    /// Bytes that arrived and were not yet consumed.
    pub closed spec fn incoming(&self) -> Seq<u8> {
        self.port.incoming()
    }

    /// Bytes sent so far.
    pub closed spec fn sent(&self) -> Seq<u8> {
        self.port.sent()
    }

    /// The port clock's reading, in milliseconds.
    pub closed spec fn now(&self) -> u64 {
        self.port.now()
    }

    /// Wraps an open port.
    pub fn new(port: P) -> (s: Serial<P>)
        ensures
            s.incoming() == port.incoming(),
            s.sent() == port.sent(),
    {
        Serial { port }
    }

    /// Hands the port back, consuming the handle.
    pub fn into_port(self) -> (p: P)
        ensures
            p.incoming() == self.incoming(),
            p.sent() == self.sent(),
    {
        self.port
    }

    /// Sends raw bytes.
    pub fn send(&mut self, data: &[u8]) -> (r: Result<(), SerialSendError>)
        ensures
            final(self).incoming() == old(self).incoming(),
            r is Ok ==> final(self).sent() == old(self).sent() + data@,
            r is Err ==> final(self).sent() == old(self).sent(),
    {
        match self.port.write_all(data) {
            Ok(()) => Ok(()),
            Err(e) => Err(SerialSendError(e)),
        }
    }

    /// Reads bytes until what was read ends with `message`, returning
    /// everything read.
    ///
    /// Succeeds exactly when the bytes read so far come to end with
    /// `message`; fails with a timeout when the budget elapses first.
    pub fn wait_for(&mut self, message: &[u8], timeout_ms: u64) -> (r: Result<
        Vec<u8>,
        SerialWaitError,
    >)
        ensures
            final(self).sent() == old(self).sent(),
            r matches Err(e) && e.0 == Error::Io(IoError::TimedOut) ==> final(self).now()
                >= old(self).now() + timeout_ms || final(self).now() == u64::MAX,
            ({
                let inc = old(self).incoming();
                let fin = final(self).incoming();
                match r {
                    Ok(out) => {
                        &&& ends_with(out@, message@)
                        &&& exists|j: int|
                            0 <= j <= inc.len() && out@ == inc.take(j) && fin == #[trigger] inc.skip(
                                j,
                            )
                    },
                    Err(_) => exists|j: int|
                        0 <= j <= inc.len() && !ends_with(inc.take(j), message@) && fin
                            == #[trigger] inc.skip(j),
                }
            }),
    {
        let ghost inc = self.port.incoming();
        let mut buf: Vec<u8> = Vec::new();
        let start = self.port.now_ms();
        proof {
            assert(buf@ =~= inc.take(0));
            assert(self.port.incoming() =~= inc.skip(0));
        }
        loop
            invariant
                inc == old(self).incoming(),
                self.port.sent() == old(self).sent(),
                self.port.now() >= start,
                start >= old(self).now(),
                buf@.len() <= inc.len(),
                buf@ == inc.take(buf@.len() as int),
                self.port.incoming() == inc.skip(buf@.len() as int),
            decreases inc.len() - buf@.len(),
        {
            if ends_with_slice(buf.as_slice(), message) {
                return Ok(buf);
            }
            let now = self.port.now_ms();
            let elapsed = if now >= start {
                now - start
            } else {
                0
            };
            if elapsed > timeout_ms {
                return Err(SerialWaitError(Error::Io(IoError::TimedOut)));
            }
            let remaining = timeout_ms - elapsed;
            let ghost now0 = self.port.now();
            match self.port.read_byte(remaining) {
                Ok(b) => {
                    proof {
                        let j = buf@.len() as int;
                        assert(inc.skip(j)[0] == inc[j]);
                        assert(inc.skip(j).drop_first() =~= inc.skip(j + 1));
                    }
                    buf.push(b);
                    proof {
                        assert(buf@ =~= inc.take(buf@.len() as int));
                    }
                }
                Err(e) => {
                    proof {
                        if e == IoError::TimedOut {
                            assert(now0 == now);
                            assert(now - start + remaining == timeout_ms);
                        }
                    }
                    return Err(SerialWaitError(Error::Io(e)));
                }
            }
        }
    }
}

} // verus!
