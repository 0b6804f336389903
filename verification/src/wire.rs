//! Compact binary layout shared by every message family.
//!
//! A serialized message is a one-byte variant discriminant followed by the
//! variant's fields in declaration order: fixed-width integers little-endian,
//! byte sequences as a 32-bit length prefix plus the raw bytes, optional
//! values as a presence byte plus the value. A message family implements
//! [`WireMessage`]; the frame layer wraps the serialized bytes in byte
//! stuffing (see [`crate::cobs`]) and a `0x00` terminator.

use vstd::prelude::*;

use crate::cobs::cobs_stuff;
use crate::cobs::cobs_unstuff;
use crate::cobs::cobs_encode;
use crate::cobs::cobs_decode;
use crate::cobs::lemma_cobs_round_trip;
use crate::cobs::lemma_stuff_no_zero;

verus! {

/// Little-endian bytes of a 16-bit integer.
pub open spec fn le16(n: u16) -> Seq<u8> {
    seq![(n % 256) as u8, ((n / 256) % 256) as u8]
}

/// Little-endian bytes of a 32-bit integer.
pub open spec fn le32(n: u32) -> Seq<u8> {
    seq![
        (n % 256) as u8,
        ((n / 256) % 256) as u8,
        ((n / 0x10000) % 256) as u8,
        ((n / 0x1000000) % 256) as u8,
    ]
}

/// Length-prefixed byte sequence.
pub open spec fn enc_bytes(data: Seq<u8>) -> Seq<u8> {
    le32(data.len() as u32) + data
}

/// Presence byte plus value.
pub open spec fn enc_opt_u32(v: Option<u32>) -> Seq<u8> {
    match v {
        Option::None => seq![0u8],
        Option::Some(n) => seq![1u8] + le32(n),
    }
}

/// Reads one byte off the front.
pub open spec fn dec_u8(s: Seq<u8>) -> Option<(u8, Seq<u8>)> {
    if s.len() >= 1 {
        Some((s[0], s.skip(1)))
    } else {
        None
    }
}

/// Reads a little-endian 16-bit integer off the front.
pub open spec fn dec_u16(s: Seq<u8>) -> Option<(u16, Seq<u8>)> {
    if s.len() >= 2 {
        Some(((s[0] + s[1] * 256) as u16, s.skip(2)))
    } else {
        None
    }
}

/// Reads a little-endian 32-bit integer off the front.
pub open spec fn dec_u32(s: Seq<u8>) -> Option<(u32, Seq<u8>)> {
    if s.len() >= 4 {
        Some(((s[0] + s[1] * 256 + s[2] * 0x10000 + s[3] * 0x1000000) as u32, s.skip(4)))
    } else {
        None
    }
}

/// Reads a length-prefixed byte sequence off the front.
pub open spec fn dec_bytes(s: Seq<u8>) -> Option<(Seq<u8>, Seq<u8>)> {
    match dec_u32(s) {
        Option::None => None,
        Option::Some((n, r)) => {
            if r.len() >= n {
                Some((r.take(n as int), r.skip(n as int)))
            } else {
                None
            }
        }
    }
}

/// Reads a presence byte plus optional 32-bit integer off the front.
pub open spec fn dec_opt_u32(s: Seq<u8>) -> Option<(Option<u32>, Seq<u8>)> {
    match dec_u8(s) {
        Option::None => None,
        Option::Some((tag, r)) => {
            if tag == 0 {
                Some((Option::None, r))
            } else if tag == 1 {
                match dec_u32(r) {
                    Option::None => None,
                    Option::Some((n, r2)) => Some((Option::Some(n), r2)),
                }
            } else {
                None
            }
        }
    }
}

pub proof fn lemma_dec_u8(b: u8, rest: Seq<u8>)
    ensures
        dec_u8(seq![b] + rest) == Some((b, rest)),
{
    let s = seq![b] + rest;
    assert(s[0] == b);
    assert(s.skip(1) =~= rest);
}

pub proof fn lemma_dec_u16(n: u16, rest: Seq<u8>)
    ensures
        dec_u16(le16(n) + rest) == Some((n, rest)),
{
    let s = le16(n) + rest;
    assert(s[0] == n % 256);
    assert(s[1] == (n / 256) % 256);
    assert(n / 256 < 256) by {
        assert(n < 0x10000);
    }
    assert((n / 256) % 256 == n / 256);
    assert(n % 256 + (n / 256) * 256 == n) by {
        vstd::arithmetic::div_mod::lemma_fundamental_div_mod(n as int, 256);
    }
    assert(s.skip(2) =~= rest);
}

pub proof fn lemma_dec_u32(n: u32, rest: Seq<u8>)
    ensures
        dec_u32(le32(n) + rest) == Some((n, rest)),
{
    let s = le32(n) + rest;
    assert(s[0] == n % 256);
    assert(s[1] == (n / 256) % 256);
    assert(s[2] == (n / 0x10000) % 256);
    assert(s[3] == (n / 0x1000000) % 256);
    assert(n % 256 + ((n / 256) % 256) * 256 + ((n / 0x10000) % 256) * 0x10000 + ((n / 0x1000000)
        % 256) * 0x1000000 == n) by {
        vstd::arithmetic::div_mod::lemma_fundamental_div_mod(n as int, 256);
        vstd::arithmetic::div_mod::lemma_fundamental_div_mod(n as int / 256, 256);
        vstd::arithmetic::div_mod::lemma_fundamental_div_mod(n as int / 0x10000, 256);
        assert(n as int / 256 / 256 == n as int / 0x10000) by {
            vstd::arithmetic::div_mod::lemma_div_denominator(n as int, 256, 256);
        }
        assert(n as int / 0x10000 / 256 == n as int / 0x1000000) by {
            vstd::arithmetic::div_mod::lemma_div_denominator(n as int, 0x10000, 256);
        }
        assert(n / 0x1000000 < 256) by {
            assert(n < 0x100000000);
        }
    }
    assert(s.skip(4) =~= rest);
}

pub proof fn lemma_dec_bytes(data: Seq<u8>, rest: Seq<u8>)
    requires
        data.len() <= u32::MAX,
    ensures
        dec_bytes(enc_bytes(data) + rest) == Some((data, rest)),
{
    let n = data.len() as u32;
    let s = enc_bytes(data) + rest;
    assert(le32(n) + (data + rest) =~= s);
    lemma_dec_u32(n, data + rest);
    assert((data + rest).take(n as int) =~= data);
    assert((data + rest).skip(n as int) =~= rest);
}

pub proof fn lemma_dec_opt_u32(v: Option<u32>, rest: Seq<u8>)
    ensures
        dec_opt_u32(enc_opt_u32(v) + rest) == Some((v, rest)),
{
    match v {
        Option::None => {
            lemma_dec_u8(0, rest);
            assert(seq![0u8] + rest =~= enc_opt_u32(v) + rest);
        }
        Option::Some(n) => {
            let s = enc_opt_u32(v) + rest;
            assert(seq![1u8] + (le32(n) + rest) =~= s);
            lemma_dec_u8(1, le32(n) + rest);
            lemma_dec_u32(n, rest);
        }
    }
}

/// Appends one byte.
pub fn put_u8(out: &mut Vec<u8>, b: u8)
    ensures
        final(out)@ == old(out)@ + seq![b],
{
    out.push(b);
}

/// Appends a 16-bit integer, little-endian.
pub fn put_u16(out: &mut Vec<u8>, n: u16)
    ensures
        final(out)@ == old(out)@ + le16(n),
{
    out.push((n % 256) as u8);
    out.push((n / 256 % 256) as u8);
    assert(out@ =~= old(out)@ + le16(n));
}

/// Appends a 32-bit integer, little-endian.
pub fn put_u32(out: &mut Vec<u8>, n: u32)
    ensures
        final(out)@ == old(out)@ + le32(n),
{
    out.push((n % 256) as u8);
    out.push((n / 256 % 256) as u8);
    out.push((n / 0x10000 % 256) as u8);
    out.push((n / 0x1000000 % 256) as u8);
    assert(out@ =~= old(out)@ + le32(n));
}

/// Appends a length-prefixed byte sequence.
pub fn put_bytes(out: &mut Vec<u8>, data: &[u8])
    requires
        data@.len() <= u32::MAX,
    ensures
        final(out)@ == old(out)@ + enc_bytes(data@),
{
    put_u32(out, data.len() as u32);
    let ghost mid = out@;
    let mut i: usize = 0;
    while i < data.len()
        invariant
            i <= data@.len(),
            out@ == mid + data@.take(i as int),
        decreases data@.len() - i,
    {
        out.push(data[i]);
        assert(out@ =~= mid + data@.take(i + 1));
        i = i + 1;
    }
    assert(data@.take(data@.len() as int) =~= data@);
    assert(out@ =~= old(out)@ + enc_bytes(data@));
}

/// Appends a presence byte plus optional 32-bit integer.
pub fn put_opt_u32(out: &mut Vec<u8>, v: &Option<u32>)
    ensures
        final(out)@ == old(out)@ + enc_opt_u32(*v),
{
    match v {
        Option::None => {
            out.push(0u8);
            assert(out@ =~= old(out)@ + enc_opt_u32(*v));
        }
        Option::Some(n) => {
            out.push(1u8);
            put_u32(out, *n);
            assert(out@ =~= old(out)@ + enc_opt_u32(*v));
        }
    }
}

/// Reads one byte at `pos`.
pub fn get_u8(buf: &[u8], pos: usize) -> (r: Option<(u8, usize)>)
    requires
        pos <= buf@.len(),
    ensures
        match r {
            Some((v, p)) => {
                &&& pos < p <= buf@.len()
                &&& dec_u8(buf@.skip(pos as int)) == Some((v, buf@.skip(p as int)))
            },
            None => dec_u8(buf@.skip(pos as int)) is None,
        },
{
    if pos < buf.len() {
        let v = buf[pos];
        proof {
            let s = buf@.skip(pos as int);
            assert(s[0] == v);
            assert(s.skip(1) =~= buf@.skip(pos + 1));
        }
        Some((v, pos + 1))
    } else {
        None
    }
}

/// Reads a little-endian 16-bit integer at `pos`.
pub fn get_u16(buf: &[u8], pos: usize) -> (r: Option<(u16, usize)>)
    requires
        pos <= buf@.len(),
    ensures
        match r {
            Some((v, p)) => {
                &&& pos < p <= buf@.len()
                &&& dec_u16(buf@.skip(pos as int)) == Some((v, buf@.skip(p as int)))
            },
            None => dec_u16(buf@.skip(pos as int)) is None,
        },
{
    if buf.len() - pos >= 2 {
        let v: u16 = buf[pos] as u16 + buf[pos + 1] as u16 * 256;
        proof {
            let s = buf@.skip(pos as int);
            assert(s[0] == buf@[pos as int]);
            assert(s[1] == buf@[pos + 1]);
            assert(s.skip(2) =~= buf@.skip(pos + 2));
        }
        Some((v, pos + 2))
    } else {
        None
    }
}

/// Reads a little-endian 32-bit integer at `pos`.
pub fn get_u32(buf: &[u8], pos: usize) -> (r: Option<(u32, usize)>)
    requires
        pos <= buf@.len(),
    ensures
        match r {
            Some((v, p)) => {
                &&& pos < p <= buf@.len()
                &&& dec_u32(buf@.skip(pos as int)) == Some((v, buf@.skip(p as int)))
            },
            None => dec_u32(buf@.skip(pos as int)) is None,
        },
{
    if buf.len() - pos >= 4 {
        let v: u32 = buf[pos] as u32 + buf[pos + 1] as u32 * 256 + buf[pos + 2] as u32 * 0x10000
            + buf[pos + 3] as u32 * 0x1000000;
        proof {
            let s = buf@.skip(pos as int);
            assert(s[0] == buf@[pos as int]);
            assert(s[1] == buf@[pos + 1]);
            assert(s[2] == buf@[pos + 2]);
            assert(s[3] == buf@[pos + 3]);
            assert(s.skip(4) =~= buf@.skip(pos + 4));
        }
        Some((v, pos + 4))
    } else {
        None
    }
}

/// Reads a length-prefixed byte sequence at `pos`.
#[verifier::loop_isolation(false)]
pub fn get_bytes(buf: &[u8], pos: usize) -> (r: Option<(Vec<u8>, usize)>)
    requires
        pos <= buf@.len(),
    ensures
        match r {
            Some((v, p)) => {
                &&& pos < p <= buf@.len()
                &&& dec_bytes(buf@.skip(pos as int)) == Some((v@, buf@.skip(p as int)))
            },
            None => dec_bytes(buf@.skip(pos as int)) is None,
        },
{
    match get_u32(buf, pos) {
        None => None,
        Some((n, p)) => {
            if n as usize <= buf.len() - p {
                let n: usize = n as usize;
                let mut data: Vec<u8> = Vec::new();
                let mut i: usize = 0;
                while i < n
                    invariant
                        i <= n,
                        p + n <= buf@.len(),
                        data@ == buf@.subrange(p as int, p + i),
                    decreases n - i,
                {
                    data.push(buf[p + i]);
                    assert(data@ =~= buf@.subrange(p as int, p + i + 1));
                    i = i + 1;
                }
                proof {
                    let r = buf@.skip(p as int);
                    assert(r.take(n as int) =~= buf@.subrange(p as int, p + n));
                    assert(r.skip(n as int) =~= buf@.skip(p + n));
                }
                Some((data, p + n))
            } else {
                None
            }
        }
    }
}

/// Reads a presence byte plus optional 32-bit integer at `pos`.
pub fn get_opt_u32(buf: &[u8], pos: usize) -> (r: Option<(Option<u32>, usize)>)
    requires
        pos <= buf@.len(),
    ensures
        match r {
            Some((v, p)) => {
                &&& pos < p <= buf@.len()
                &&& dec_opt_u32(buf@.skip(pos as int)) == Some((v, buf@.skip(p as int)))
            },
            None => dec_opt_u32(buf@.skip(pos as int)) is None,
        },
{
    match get_u8(buf, pos) {
        None => None,
        Some((tag, p)) => {
            if tag == 0 {
                Some((None, p))
            } else if tag == 1 {
                match get_u32(buf, p) {
                    None => None,
                    Some((n, p2)) => Some((Some(n), p2)),
                }
            } else {
                None
            }
        }
    }
}

/// A message family with a self-describing binary form.
///
/// `enc_view` gives the serialized bytes of a message's abstract value (its
/// view); `dec` parses a whole buffer back into such a value (rejecting
/// unknown discriminants, inconsistent lengths, short input and trailing
/// garbage). Every family proves the round trip: decoding an encoding yields
/// the original value.
pub trait WireMessage: View + Sized {
    /// Whether the message can be put on the wire (its byte payloads fit the
    /// 32-bit length prefix).
    spec fn wf(&self) -> bool;

    /// The serialized bytes of an abstract message value.
    spec fn enc_view(v: Self::V) -> Seq<u8>;

    /// Parses a whole buffer; `None` when `s` is not exactly an encoding.
    spec fn dec(s: Seq<u8>) -> Option<Self::V>;

    /// Appends the serialized bytes of `self` to `out`.
    fn encode(&self, out: &mut Vec<u8>)
        requires
            self.wf(),
        ensures
            final(out)@ == old(out)@ + Self::enc_view(self@),
    ;

    /// Parses a whole buffer.
    fn decode(buf: &[u8]) -> (r: Option<Self>)
        ensures
            match r {
                Some(m) => Self::dec(buf@) == Some(m@) && m.wf(),
                None => Self::dec(buf@) is None,
            },
    ;

    /// Round trip: decoding an encoded message yields the message's value.
    proof fn lemma_round_trip(&self)
        requires
            self.wf(),
        ensures
            Self::dec(Self::enc_view(self@)) == Some(self@),
    ;
}

/// A whole frame: the stuffed message bytes followed by the terminator.
pub open spec fn frame_bytes(payload: Seq<u8>) -> Seq<u8> {
    cobs_stuff(payload) + seq![0u8]
}

/// Parses a whole frame (terminator included) back into its payload bytes.
pub open spec fn unframe_bytes(s: Seq<u8>) -> Option<Seq<u8>> {
    if s.len() > 0 && s.last() == 0 {
        cobs_unstuff(s.drop_last())
    } else {
        None
    }
}

/// Framing loses nothing: unframing a framed payload yields the payload.
pub proof fn lemma_frame_round_trip(payload: Seq<u8>)
    ensures
        unframe_bytes(frame_bytes(payload)) == Some(payload),
{
    lemma_cobs_round_trip(payload);
    let f = frame_bytes(payload);
    assert(f.last() == 0);
    assert(f.drop_last() =~= cobs_stuff(payload));
}

/// A frame contains no terminator byte before its final position: the
/// accumulation loop that cuts the stream at the first `0x00` recovers frame
/// boundaries exactly.
pub proof fn lemma_frame_delimited(payload: Seq<u8>)
    ensures
        frame_bytes(payload).len() > 0,
        frame_bytes(payload).last() == 0,
        forall|i: int| 0 <= i < frame_bytes(payload).len() - 1 ==> frame_bytes(payload)[i] != 0,
{
    lemma_stuff_no_zero(payload);
    assert forall|i: int| 0 <= i < frame_bytes(payload).len() - 1 implies frame_bytes(payload)[i]
        != 0 by {
        assert(frame_bytes(payload)[i] == cobs_stuff(payload)[i]);
    }
}

/// Serialized form of an abstract message value as one framed wire unit.
pub open spec fn message_frame<M: WireMessage>(v: M::V) -> Seq<u8> {
    frame_bytes(M::enc_view(v))
}

/// Encodes `m` and frames it: stuffed bytes plus the `0x00` terminator.
pub fn encode_frame<M: WireMessage>(m: &M) -> (r: Vec<u8>)
    requires
        m.wf(),
    ensures
        r@ == message_frame::<M>(m@),
        r@.len() > 0,
        r@.last() == 0,
        forall|i: int| 0 <= i < r@.len() - 1 ==> r@[i] != 0,
{
    let mut payload: Vec<u8> = Vec::new();
    m.encode(&mut payload);
    proof {
        assert(payload@ =~= M::enc_view(m@));
        lemma_frame_delimited(M::enc_view(m@));
    }
    let mut out = cobs_encode(payload.as_slice());
    out.push(0u8);
    proof {
        assert(out@ =~= frame_bytes(M::enc_view(m@)));
    }
    out
}

/// What decoding a whole frame yields: unframe, then parse the payload.
pub open spec fn dec_frame<M: WireMessage>(s: Seq<u8>) -> Option<M::V> {
    match unframe_bytes(s) {
        Option::None => None,
        Option::Some(payload) => M::dec(payload),
    }
}

/// Parses an accumulated frame (terminator included) into a message.
pub fn decode_frame<M: WireMessage>(buf: &[u8]) -> (r: Option<M>)
    ensures
        match r {
            Some(m) => dec_frame::<M>(buf@) == Some(m@) && m.wf(),
            None => dec_frame::<M>(buf@) is None,
        },
{
    if buf.len() == 0 {
        return None;
    }
    if buf[buf.len() - 1] != 0 {
        return None;
    }
    let mut body: Vec<u8> = Vec::new();
    let mut i: usize = 0;
    while i < buf.len() - 1
        invariant
            buf@.len() > 0,
            i <= buf@.len() - 1,
            body@ == buf@.take(i as int),
        decreases buf@.len() - i,
    {
        body.push(buf[i]);
        assert(body@ =~= buf@.take(i + 1));
        i = i + 1;
    }
    proof {
        assert(body@ =~= buf@.drop_last());
    }
    match cobs_decode(body.as_slice()) {
        None => None,
        Some(payload) => M::decode(payload.as_slice()),
    }
}

/// Frame round trip for a message family: a framed message, handed back to
/// the frame parser, yields the original message's value.
pub proof fn lemma_message_frame_round_trip<M: WireMessage>(m: M)
    requires
        m.wf(),
    ensures
        dec_frame::<M>(message_frame::<M>(m@)) == Some(m@),
{
    lemma_frame_round_trip(M::enc_view(m@));
    m.lemma_round_trip();
}

} // verus!
