//! The interrupt-enabled USART bridge on a firmware node.
//!
//! Received bytes go through a fixed-capacity queue from the interrupt
//! handler to the idle loop (the handler side is [`Usart::receive`]); the
//! idle loop drains the queue into a staging buffer and either forwards raw
//! data ([`Usart::process_raw`]) or cuts the stream into frames and decodes
//! them ([`Usart::process_message`]). One `Usart` has exactly one producer
//! (the interrupt context) and one consumer (the idle loop) for its whole
//! lifetime; the code that owns it upholds that discipline.

use vstd::prelude::*;

use crate::BYTE_QUEUE_CAPACITY;
use crate::conn::first_zero;
use crate::conn::lemma_first_zero_at;
use crate::queue::Queue;
use crate::wire::WireMessage;
use crate::wire::dec_frame;
use crate::wire::decode_frame;
use crate::wire::encode_frame;
use crate::wire::message_frame;

verus! {

/// Error receiving data in the interrupt handler.
#[derive(Clone, Copy, Debug, PartialEq, Eq, Structural)]
pub enum ReceiveError {
    /// The bridge queue is full; the byte could not be taken.
    QueueFull,
}

/// Error processing received data in the idle loop.
#[derive(Clone, Copy, Debug, PartialEq, Eq, Structural)]
pub enum ProcessError {
    /// The staging buffer is full before a frame was complete.
    BufferFull,
    /// A complete frame did not decode to a message.
    Decode,
}

/// The interrupt-enabled USART bridge.
pub struct Usart {
    queue: Queue<u8>,
    buf: Vec<u8>,
}

impl Usart {
    /// Bytes waiting in the interrupt/idle queue, oldest first.
    pub closed spec fn queue_view(&self) -> Seq<u8> {
        self.queue@
    }

    /// Bytes already staged by the idle loop.
    pub closed spec fn buf_view(&self) -> Seq<u8> {
        self.buf@
    }

    /// The not-yet-processed byte stream: staged bytes, then queued bytes.
    pub open spec fn stream(&self) -> Seq<u8> {
        self.buf_view() + self.queue_view()
    }

    /// Queue and buffer respect their fixed capacity.
    pub closed spec fn wf(&self) -> bool {
        &&& self.queue.wf()
        &&& self.queue.spec_capacity() == BYTE_QUEUE_CAPACITY
        &&& self.buf@.len() <= BYTE_QUEUE_CAPACITY
    }

    /// The staging buffer holds no terminator: every started frame was
    /// either completed and cleared, or is still open.
    pub closed spec fn buf_clean(&self) -> bool {
        forall|i: int| 0 <= i < self.buf@.len() ==> self.buf@[i] != 0
    }

    /// A fresh bridge with empty queue and buffer.
    pub fn new() -> (u: Usart)
        ensures
            u.queue_view() == Seq::<u8>::empty(),
            u.buf_view() == Seq::<u8>::empty(),
            u.wf(),
            u.buf_clean(),
    {
        Usart { queue: Queue::new(BYTE_QUEUE_CAPACITY), buf: Vec::new() }
    }

    /// Takes bytes read by the interrupt handler into the queue. Never
    /// blocks; fails with `QueueFull` when a byte does not fit, leaving the
    /// earlier bytes queued.
    pub fn receive(&mut self, data: &[u8]) -> (r: Result<(), ReceiveError>)
        requires
            old(self).wf(),
        ensures
            final(self).wf(),
            final(self).buf_view() == old(self).buf_view(),
            r is Ok ==> final(self).queue_view() == old(self).queue_view() + data@,
            r is Err ==> exists|j: int|
                {
                    &&& 0 <= j < data@.len()
                    &&& final(self).queue_view() == old(self).queue_view() + #[trigger] data@.take(
                        j,
                    )
                    &&& final(self).queue_view().len() == BYTE_QUEUE_CAPACITY
                },
    {
        let mut i: usize = 0;
        while i < data.len()
            invariant
                i <= data@.len(),
                self.wf(),
                self.buf == old(self).buf,
                self.queue_view() == old(self).queue_view() + data@.take(i as int),
            decreases data@.len() - i,
        {
            match self.queue.enqueue(data[i]) {
                Ok(()) => {
                    assert(self.queue_view() =~= old(self).queue_view() + data@.take(i + 1));
                }
                Err(_) => {
                    proof {
                        let j = i as int;
                        assert(self.queue_view() == old(self).queue_view() + data@.take(j));
                    }
                    return Err(ReceiveError::QueueFull);
                }
            }
            i = i + 1;
        }
        proof {
            assert(data@.take(data@.len() as int) =~= data@);
        }
        Ok(())
    }

    /// Whether the idle loop has data to process.
    pub fn can_process(&self) -> (r: bool)
        ensures
            r == (self.queue_view().len() > 0),
    {
        self.queue.is_ready()
    }

    /// Drains the queue into the staging buffer and hands over everything
    /// staged, clearing the buffer. `Ok(None)` when there was nothing.
    pub fn process_raw(&mut self) -> (r: Result<Option<Vec<u8>>, ProcessError>)
        requires
            old(self).wf(),
        ensures
            final(self).wf(),
            match r {
                Ok(Some(d)) => {
                    &&& d@ == old(self).stream()
                    &&& d@.len() > 0
                    &&& final(self).queue_view() == Seq::<u8>::empty()
                    &&& final(self).buf_view() == Seq::<u8>::empty()
                    &&& final(self).buf_clean()
                },
                Ok(None) => {
                    &&& old(self).stream() == Seq::<u8>::empty()
                    &&& final(self).queue_view() == Seq::<u8>::empty()
                    &&& final(self).buf_view() == Seq::<u8>::empty()
                },
                Err(_) => old(self).stream().len() > BYTE_QUEUE_CAPACITY,
            },
    {
        let ghost stream = self.stream();
        loop
            invariant
                stream == old(self).stream(),
                self.wf(),
                self.buf_view() + self.queue_view() == stream,
            decreases self.queue_view().len(),
        {
            match self.queue.dequeue() {
                None => {
                    proof {
                        assert(stream =~= self.buf_view());
                    }
                    if self.buf.len() == 0 {
                        proof {
                            assert(stream =~= Seq::<u8>::empty());
                        }
                        return Ok(None);
                    }
                    let mut out: Vec<u8> = Vec::new();
                    core::mem::swap(&mut out, &mut self.buf);
                    proof {
                        assert(out@ =~= stream);
                    }
                    return Ok(Some(out));
                }
                Some(b) => {
                    if self.buf.len() >= BYTE_QUEUE_CAPACITY {
                        proof {
                            assert(stream.len() > BYTE_QUEUE_CAPACITY);
                        }
                        return Err(ProcessError::BufferFull);
                    }
                    proof {
                        assert(self.buf_view().push(b) + self.queue_view() =~= stream);
                    }
                    self.buf.push(b);
                }
            }
        }
    }

    /// Drains queued bytes into the staging buffer until a terminator
    /// completes a frame, then decodes it. `Ok(None)` when the queue ran dry
    /// before a frame was complete.
    ///
    /// After `Ok(Some(_))` the buffer still holds the decoded frame: the
    /// caller must clear it with [`Self::clear_buf`] before processing the
    /// next message.
    pub fn process_message<M: WireMessage>(&mut self) -> (r: Result<Option<M>, ProcessError>)
        requires
            old(self).wf(),
            old(self).buf_clean(),
        ensures
            final(self).wf(),
            ({
                let stream = old(self).stream();
                match r {
                    Ok(Some(m)) => {
                        &&& first_zero(stream) >= 0
                        &&& dec_frame::<M>(stream.take(first_zero(stream) + 1)) == Some(m@)
                        &&& m.wf()
                        &&& final(self).buf_view() == stream.take(first_zero(stream) + 1)
                        &&& final(self).queue_view() == stream.skip(first_zero(stream) + 1)
                    },
                    Ok(None) => {
                        &&& first_zero(stream) < 0
                        &&& final(self).buf_view() == stream
                        &&& final(self).queue_view() == Seq::<u8>::empty()
                        &&& final(self).buf_clean()
                    },
                    Err(ProcessError::Decode) => {
                        &&& first_zero(stream) >= 0
                        &&& dec_frame::<M>(stream.take(first_zero(stream) + 1)) is None
                        &&& final(self).buf_view() == stream.take(first_zero(stream) + 1)
                        &&& final(self).queue_view() == stream.skip(first_zero(stream) + 1)
                    },
                    Err(ProcessError::BufferFull) => stream.len() > BYTE_QUEUE_CAPACITY,
                }
            }),
    {
        let ghost stream = self.stream();
        proof {
            assert(self.buf_view() =~= stream.take(self.buf_view().len() as int));
            assert(self.queue_view() =~= stream.skip(self.buf_view().len() as int));
        }
        loop
            invariant
                stream == old(self).stream(),
                self.wf(),
                self.buf_view().len() <= stream.len(),
                self.buf_view() == stream.take(self.buf_view().len() as int),
                self.queue_view() == stream.skip(self.buf_view().len() as int),
                forall|i: int| 0 <= i < self.buf_view().len() ==> stream[i] != 0,
            decreases self.queue_view().len(),
        {
            let b = match self.queue.dequeue() {
                Some(b) => b,
                None => {
                    proof {
                        crate::conn::lemma_first_zero(stream);
                        if first_zero(stream) >= 0 {
                            assert(stream[first_zero(stream)] == 0);
                            assert(false);
                        }
                        assert(self.buf_view() =~= stream);
                    }
                    return Ok(None);
                }
            };
            if self.buf.len() >= BYTE_QUEUE_CAPACITY {
                proof {
                    assert(stream.len() > BYTE_QUEUE_CAPACITY);
                }
                return Err(ProcessError::BufferFull);
            }
            proof {
                let j = self.buf_view().len() as int;
                assert(stream.skip(j)[0] == stream[j]);
                assert(stream.skip(j).drop_first() =~= stream.skip(j + 1));
                assert(self.buf_view().push(b) =~= stream.take(j + 1));
            }
            self.buf.push(b);
            if b == 0 {
                proof {
                    lemma_first_zero_at(stream, self.buf_view().len() - 1);
                }
                return match decode_frame::<M>(self.buf.as_slice()) {
                    Some(m) => Ok(Some(m)),
                    None => Err(ProcessError::Decode),
                };
            }
        }
    }

    /// Clears the staging buffer. Must run after every completed
    /// [`Self::process_message`], or the next call fails on the stale frame.
    pub fn clear_buf(&mut self)
        ensures
            final(self).buf_view() == Seq::<u8>::empty(),
            final(self).queue_view() == old(self).queue_view(),
            final(self).buf_clean(),
            old(self).wf() ==> final(self).wf(),
    {
        self.buf.clear();
    }
}

/// The transmitting half of a firmware USART: frames messages and appends
/// them to the outgoing wire.
pub struct Tx;

impl Tx {
    /// A transmitter handle.
    pub fn new() -> (t: Tx) {
        Tx
    }

    /// Appends raw bytes to the outgoing wire.
    pub fn send_raw(&mut self, data: &[u8], wire: &mut Vec<u8>)
        ensures
            final(wire)@ == old(wire)@ + data@,
    {
        let ghost w0 = wire@;
        let mut i: usize = 0;
        while i < data.len()
            invariant
                i <= data@.len(),
                wire@ == w0 + data@.take(i as int),
            decreases data@.len() - i,
        {
            wire.push(data[i]);
            assert(wire@ =~= w0 + data@.take(i + 1));
            i = i + 1;
        }
        assert(data@.take(data@.len() as int) =~= data@);
    }

    /// Encodes `message`, frames it, and appends the frame to the outgoing
    /// wire.
    pub fn send_message<M: WireMessage>(&mut self, message: &M, wire: &mut Vec<u8>)
        requires
            message.wf(),
        ensures
            final(wire)@ == old(wire)@ + message_frame::<M>(message@),
    {
        let frame = encode_frame(message);
        self.send_raw(frame.as_slice(), wire);
    }
}

} // verus!
