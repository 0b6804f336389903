//! The byte port a host-side connection runs on.
//!
//! A [`Port`] is a serial link together with a monotonic-enough clock: it can
//! write bytes, hand over the next incoming byte (or time out), and report
//! the time. Its abstract state is the sequence of bytes not yet delivered,
//! the sequence of bytes written so far, and the clock reading. The test
//! harness uses the in-memory [`SimPort`]; a real program wraps an operating
//! system serial device in the same trait.

use vstd::prelude::*;

verus! {

/// A transport-level failure, `TimedOut` being the one callers routinely
/// branch on.
#[derive(Clone, Copy, Debug, PartialEq, Eq, Structural)]
pub enum IoError {
    /// The configured timeout elapsed before a byte arrived.
    TimedOut,
    /// Any other transport failure.
    Broken,
}

/// A serial link plus clock, with its delivered/written byte streams as
/// abstract state.
pub trait Port: Sized {
    /// Bytes that have arrived but were not yet handed to the caller. An
    /// implementation outside the verifier's reach may leave the default,
    /// which models an idle link.
    open spec fn incoming(&self) -> Seq<u8> {
        Seq::empty()
    }

    /// Bytes written so far.
    open spec fn sent(&self) -> Seq<u8> {
        Seq::empty()
    }

    /// The clock reading, in milliseconds.
    open spec fn now(&self) -> u64 {
        0
    }

    /// Writes all of `data`.
    fn write_all(&mut self, data: &[u8]) -> (r: Result<(), IoError>)
        ensures
            final(self).incoming() == old(self).incoming(),
            final(self).now() >= old(self).now(),
            r is Ok ==> final(self).sent() == old(self).sent() + data@,
            r is Err ==> final(self).sent() == old(self).sent(),
    ;

    /// Hands over the next incoming byte, or fails after at most roughly
    /// `timeout_ms` milliseconds. A timeout is only reported once the whole
    /// budget has elapsed on the clock.
    fn read_byte(&mut self, timeout_ms: u64) -> (r: Result<u8, IoError>)
        ensures
            final(self).sent() == old(self).sent(),
            final(self).now() >= old(self).now(),
            match r {
                Ok(b) => {
                    &&& old(self).incoming().len() > 0
                    &&& b == old(self).incoming()[0]
                    &&& final(self).incoming() == old(self).incoming().drop_first()
                },
                Err(_) => final(self).incoming() == old(self).incoming(),
            },
            r == Err::<u8, IoError>(IoError::TimedOut) ==> final(self).now() >= old(self).now()
                + timeout_ms || final(self).now() == u64::MAX,
    ;

    /// Reads the clock, in milliseconds. The clock never runs backwards.
    fn now_ms(&mut self) -> (t: u64)
        ensures
            final(self).incoming() == old(self).incoming(),
            final(self).sent() == old(self).sent(),
            t == final(self).now(),
            t >= old(self).now(),
    ;
}

/// An in-memory port: what the far node queued is delivered byte by byte,
/// what is written accumulates, and the clock advances by a fixed tick per
/// read attempt. Tests wire two ends together by moving bytes between
/// `take_sent` and `push_incoming`.
pub struct SimPort {
    incoming: Vec<u8>,
    sent: Vec<u8>,
    clock_ms: u64,
    tick_ms: u64,
}

impl SimPort {
    /// An empty port whose clock starts at zero and advances `tick_ms` per
    /// read attempt.
    pub fn new(tick_ms: u64) -> (p: SimPort)
        ensures
            p.incoming() == Seq::<u8>::empty(),
            p.sent() == Seq::<u8>::empty(),
            p.now() == 0,
    {
        SimPort { incoming: Vec::new(), sent: Vec::new(), clock_ms: 0, tick_ms }
    }

    /// Queues bytes as if the far node had sent them.
    pub fn push_incoming(&mut self, data: &[u8])
        ensures
            final(self).incoming() == old(self).incoming() + data@,
            final(self).sent() == old(self).sent(),
            final(self).now() == old(self).now(),
    {
        let mut i: usize = 0;
        while i < data.len()
            invariant
                i <= data@.len(),
                self.incoming@ == old(self).incoming@ + data@.take(i as int),
                self.sent == old(self).sent,
                self.clock_ms == old(self).clock_ms,
                self.tick_ms == old(self).tick_ms,
            decreases data@.len() - i,
        {
            self.incoming.push(data[i]);
            assert(self.incoming@ =~= old(self).incoming@ + data@.take(i + 1));
            i = i + 1;
        }
        assert(data@.take(data@.len() as int) =~= data@);
    }

    /// Takes everything written so far, leaving the written stream empty.
    pub fn take_sent(&mut self) -> (r: Vec<u8>)
        ensures
            r@ == old(self).sent(),
            final(self).sent() == Seq::<u8>::empty(),
            final(self).incoming() == old(self).incoming(),
            final(self).now() == old(self).now(),
    {
        let mut out: Vec<u8> = Vec::new();
        core::mem::swap(&mut out, &mut self.sent);
        out
    }

    /// Moves the clock forward.
    pub fn advance_ms(&mut self, ms: u64)
        ensures
            final(self).incoming() == old(self).incoming(),
            final(self).sent() == old(self).sent(),
            final(self).now() == (old(self).now() + ms) as u64
                || final(self).now() == u64::MAX,
    {
        if ms <= u64::MAX - self.clock_ms {
            self.clock_ms = self.clock_ms + ms;
        } else {
            self.clock_ms = u64::MAX;
        }
    }
}

impl Port for SimPort {
    closed spec fn incoming(&self) -> Seq<u8> {
        self.incoming@
    }

    closed spec fn sent(&self) -> Seq<u8> {
        self.sent@
    }

    closed spec fn now(&self) -> u64 {
        self.clock_ms
    }

    fn write_all(&mut self, data: &[u8]) -> (r: Result<(), IoError>) {
        let mut i: usize = 0;
        while i < data.len()
            invariant
                i <= data@.len(),
                self.sent@ == old(self).sent@ + data@.take(i as int),
                self.incoming == old(self).incoming,
                self.clock_ms == old(self).clock_ms,
                self.tick_ms == old(self).tick_ms,
            decreases data@.len() - i,
        {
            self.sent.push(data[i]);
            assert(self.sent@ =~= old(self).sent@ + data@.take(i + 1));
            i = i + 1;
        }
        assert(data@.take(data@.len() as int) =~= data@);
        Ok(())
    }

    fn read_byte(&mut self, timeout_ms: u64) -> (r: Result<u8, IoError>) {
        if self.incoming.len() > 0 {
            let b = self.incoming.remove(0);
            if self.tick_ms <= u64::MAX - self.clock_ms {
                self.clock_ms = self.clock_ms + self.tick_ms;
            } else {
                self.clock_ms = u64::MAX;
            }
            Ok(b)
        } else {
            if timeout_ms <= u64::MAX - self.clock_ms {
                self.clock_ms = self.clock_ms + timeout_ms;
            } else {
                self.clock_ms = u64::MAX;
            }
            Err(IoError::TimedOut)
        }
    }

    fn now_ms(&mut self) -> (t: u64) {
        self.clock_ms
    }
}

} // verus!
