//! Protocol types for controlling and monitoring pins, shared by the message
//! families of every test stand.

use vstd::prelude::*;

use crate::wire::dec_opt_u32;
use crate::wire::dec_u8;
use crate::wire::enc_opt_u32;
use crate::wire::get_opt_u32;
use crate::wire::get_u8;
use crate::wire::lemma_dec_opt_u32;
use crate::wire::lemma_dec_u8;
use crate::wire::put_opt_u32;

verus! {

/// The electrical level of a pin.
#[derive(Clone, Copy, Debug, PartialEq, Eq, Structural)]
pub enum Level {
    High,
    Low,
}

impl Level {
    /// One-byte wire form.
    pub open spec fn enc(&self) -> Seq<u8> {
        match self {
            Level::High => seq![0u8],
            Level::Low => seq![1u8],
        }
    }

    /// Reads a level off the front of `s`.
    pub open spec fn dec(s: Seq<u8>) -> Option<(Level, Seq<u8>)> {
        match dec_u8(s) {
            Option::None => None,
            Option::Some((b, r)) => {
                if b == 0 {
                    Some((Level::High, r))
                } else if b == 1 {
                    Some((Level::Low, r))
                } else {
                    None
                }
            }
        }
    }

    /// Appends the wire form of `self`.
    pub fn put(&self, out: &mut Vec<u8>)
        ensures
            final(out)@ == old(out)@ + self.enc(),
    {
        match self {
            Level::High => out.push(0u8),
            Level::Low => out.push(1u8),
        }
        assert(out@ =~= old(out)@ + self.enc());
    }

    /// Reads a level at `pos`.
    pub fn get(buf: &[u8], pos: usize) -> (r: Option<(Level, usize)>)
        requires
            pos <= buf@.len(),
        ensures
            match r {
                Some((v, p)) => {
                    &&& pos < p <= buf@.len()
                    &&& Level::dec(buf@.skip(pos as int)) == Some((v, buf@.skip(p as int)))
                },
                None => Level::dec(buf@.skip(pos as int)) is None,
            },
    {
        match get_u8(buf, pos) {
            None => None,
            Some((b, p)) => {
                if b == 0 {
                    Some((Level::High, p))
                } else if b == 1 {
                    Some((Level::Low, p))
                } else {
                    None
                }
            }
        }
    }

    pub proof fn lemma_dec(&self, rest: Seq<u8>)
        ensures
            Level::dec(self.enc() + rest) == Some((*self, rest)),
    {
        match self {
            Level::High => lemma_dec_u8(0, rest),
            Level::Low => lemma_dec_u8(1, rest),
        }
    }
}

/// A pin identifier that can go on the wire. The unit type stands for "the
/// one pin this link talks about" and occupies no bytes.
pub trait PinId: Sized {
    /// Wire form.
    spec fn enc(&self) -> Seq<u8>;

    /// Reads an identifier off the front of `s`.
    spec fn dec(s: Seq<u8>) -> Option<(Self, Seq<u8>)>;

    /// Appends the wire form of `self`.
    fn put(&self, out: &mut Vec<u8>)
        ensures
            final(out)@ == old(out)@ + self.enc(),
    ;

    /// Reads an identifier at `pos`.
    fn get(buf: &[u8], pos: usize) -> (r: Option<(Self, usize)>)
        requires
            pos <= buf@.len(),
        ensures
            match r {
                Some((v, p)) => {
                    &&& pos <= p <= buf@.len()
                    &&& Self::dec(buf@.skip(pos as int)) == Some((v, buf@.skip(p as int)))
                },
                None => Self::dec(buf@.skip(pos as int)) is None,
            },
    ;

    /// Exact equality test, so callers can filter replies by pin.
    fn same(&self, other: &Self) -> (r: bool)
        ensures
            r == (*self == *other),
    ;

    proof fn lemma_dec(&self, rest: Seq<u8>)
        ensures
            Self::dec(self.enc() + rest) == Some((*self, rest)),
    ;
}

impl PinId for () {
    open spec fn enc(&self) -> Seq<u8> {
        Seq::empty()
    }

    open spec fn dec(s: Seq<u8>) -> Option<((), Seq<u8>)> {
        Some(((), s))
    }

    fn put(&self, out: &mut Vec<u8>) {
        assert(out@ =~= old(out)@ + self.enc());
    }

    fn get(buf: &[u8], pos: usize) -> (r: Option<((), usize)>) {
        Some(((), pos))
    }

    fn same(&self, other: &Self) -> (r: bool) {
        true
    }

    proof fn lemma_dec(&self, rest: Seq<u8>) {
        assert(self.enc() + rest =~= rest);
    }
}

/// Command: set the pin to the given level.
#[derive(Clone, Copy, Debug, PartialEq, Eq)]
pub struct SetLevel<Id> {
    /// The pin whose level should be set.
    pub pin: Id,
    /// The new level of the pin.
    pub level: Level,
}

impl<Id: PinId> SetLevel<Id> {
    pub open spec fn enc(&self) -> Seq<u8> {
        self.pin.enc() + self.level.enc()
    }

    pub open spec fn dec(s: Seq<u8>) -> Option<(SetLevel<Id>, Seq<u8>)> {
        match Id::dec(s) {
            Option::None => None,
            Option::Some((pin, r)) => match Level::dec(r) {
                Option::None => None,
                Option::Some((level, r2)) => Some((SetLevel { pin, level }, r2)),
            },
        }
    }

    pub fn put(&self, out: &mut Vec<u8>)
        ensures
            final(out)@ == old(out)@ + self.enc(),
    {
        self.pin.put(out);
        self.level.put(out);
        assert(out@ =~= old(out)@ + self.enc());
    }

    pub fn get(buf: &[u8], pos: usize) -> (r: Option<(SetLevel<Id>, usize)>)
        requires
            pos <= buf@.len(),
        ensures
            match r {
                Some((v, p)) => {
                    &&& pos <= p <= buf@.len()
                    &&& Self::dec(buf@.skip(pos as int)) == Some((v, buf@.skip(p as int)))
                },
                None => Self::dec(buf@.skip(pos as int)) is None,
            },
    {
        match Id::get(buf, pos) {
            None => None,
            Some((pin, p)) => match Level::get(buf, p) {
                None => None,
                Some((level, p2)) => Some((SetLevel { pin, level }, p2)),
            },
        }
    }

    pub proof fn lemma_dec(&self, rest: Seq<u8>)
        ensures
            Self::dec(self.enc() + rest) == Some((*self, rest)),
    {
        assert(self.enc() + rest =~= self.pin.enc() + (self.level.enc() + rest));
        self.pin.lemma_dec(self.level.enc() + rest);
        self.level.lemma_dec(rest);
    }
}

/// Request: report the current level of the pin.
#[derive(Clone, Copy, Debug, PartialEq, Eq)]
pub struct ReadLevel<Id> {
    /// The pin whose level to read.
    pub pin: Id,
}

impl<Id: PinId> ReadLevel<Id> {
    pub open spec fn enc(&self) -> Seq<u8> {
        self.pin.enc()
    }

    pub open spec fn dec(s: Seq<u8>) -> Option<(ReadLevel<Id>, Seq<u8>)> {
        match Id::dec(s) {
            Option::None => None,
            Option::Some((pin, r)) => Some((ReadLevel { pin }, r)),
        }
    }

    pub fn put(&self, out: &mut Vec<u8>)
        ensures
            final(out)@ == old(out)@ + self.enc(),
    {
        self.pin.put(out);
    }

    pub fn get(buf: &[u8], pos: usize) -> (r: Option<(ReadLevel<Id>, usize)>)
        requires
            pos <= buf@.len(),
        ensures
            match r {
                Some((v, p)) => {
                    &&& pos <= p <= buf@.len()
                    &&& Self::dec(buf@.skip(pos as int)) == Some((v, buf@.skip(p as int)))
                },
                None => Self::dec(buf@.skip(pos as int)) is None,
            },
    {
        match Id::get(buf, pos) {
            None => None,
            Some((pin, p)) => Some((ReadLevel { pin }, p)),
        }
    }

    pub proof fn lemma_dec(&self, rest: Seq<u8>)
        ensures
            Self::dec(self.enc() + rest) == Some((*self, rest)),
    {
        self.pin.lemma_dec(rest);
    }
}

/// Reply to a [`ReadLevel`] request.
#[derive(Clone, Copy, Debug, PartialEq, Eq)]
pub struct ReadLevelResult<Id> {
    /// The pin whose level was read.
    pub pin: Id,
    /// The level of the pin.
    pub level: Level,
    /// Milliseconds since the previous change of this pin's level; absent on
    /// the first observed change or when the measurement overran the timer.
    pub period_ms: Option<u32>,
}

impl<Id: PinId> ReadLevelResult<Id> {
    pub open spec fn enc(&self) -> Seq<u8> {
        self.pin.enc() + self.level.enc() + enc_opt_u32(self.period_ms)
    }

    pub open spec fn dec(s: Seq<u8>) -> Option<(ReadLevelResult<Id>, Seq<u8>)> {
        match Id::dec(s) {
            Option::None => None,
            Option::Some((pin, r)) => match Level::dec(r) {
                Option::None => None,
                Option::Some((level, r2)) => match dec_opt_u32(r2) {
                    Option::None => None,
                    Option::Some((period_ms, r3)) => Some(
                        (ReadLevelResult { pin, level, period_ms }, r3),
                    ),
                },
            },
        }
    }

    pub fn put(&self, out: &mut Vec<u8>)
        ensures
            final(out)@ == old(out)@ + self.enc(),
    {
        self.pin.put(out);
        self.level.put(out);
        put_opt_u32(out, &self.period_ms);
        assert(out@ =~= old(out)@ + self.enc());
    }

    pub fn get(buf: &[u8], pos: usize) -> (r: Option<(ReadLevelResult<Id>, usize)>)
        requires
            pos <= buf@.len(),
        ensures
            match r {
                Some((v, p)) => {
                    &&& pos <= p <= buf@.len()
                    &&& Self::dec(buf@.skip(pos as int)) == Some((v, buf@.skip(p as int)))
                },
                None => Self::dec(buf@.skip(pos as int)) is None,
            },
    {
        match Id::get(buf, pos) {
            None => None,
            Some((pin, p)) => match Level::get(buf, p) {
                None => None,
                Some((level, p2)) => match get_opt_u32(buf, p2) {
                    None => None,
                    Some((period_ms, p3)) => Some((ReadLevelResult { pin, level, period_ms }, p3)),
                },
            },
        }
    }

    pub proof fn lemma_dec(&self, rest: Seq<u8>)
        ensures
            Self::dec(self.enc() + rest) == Some((*self, rest)),
    {
        assert(self.enc() + rest =~= self.pin.enc() + (self.level.enc() + (enc_opt_u32(
            self.period_ms,
        ) + rest)));
        self.pin.lemma_dec(self.level.enc() + (enc_opt_u32(self.period_ms) + rest));
        self.level.lemma_dec(enc_opt_u32(self.period_ms) + rest);
        lemma_dec_opt_u32(self.period_ms, rest);
    }
}

/// Notification: the pin's level changed. Used by the message families that
/// push pin changes instead of answering read requests.
#[derive(Clone, Copy, Debug, PartialEq, Eq)]
pub struct LevelChanged<Id> {
    /// The pin whose level changed.
    pub pin: Id,
    /// The new level of the pin.
    pub level: Level,
    /// Milliseconds since the previous change, if reliably measured.
    pub period_ms: Option<u32>,
}

impl<Id: PinId> LevelChanged<Id> {
    pub open spec fn enc(&self) -> Seq<u8> {
        self.pin.enc() + self.level.enc() + enc_opt_u32(self.period_ms)
    }

    pub open spec fn dec(s: Seq<u8>) -> Option<(LevelChanged<Id>, Seq<u8>)> {
        match Id::dec(s) {
            Option::None => None,
            Option::Some((pin, r)) => match Level::dec(r) {
                Option::None => None,
                Option::Some((level, r2)) => match dec_opt_u32(r2) {
                    Option::None => None,
                    Option::Some((period_ms, r3)) => Some(
                        (LevelChanged { pin, level, period_ms }, r3),
                    ),
                },
            },
        }
    }

    pub fn put(&self, out: &mut Vec<u8>)
        ensures
            final(out)@ == old(out)@ + self.enc(),
    {
        self.pin.put(out);
        self.level.put(out);
        put_opt_u32(out, &self.period_ms);
        assert(out@ =~= old(out)@ + self.enc());
    }

    pub fn get(buf: &[u8], pos: usize) -> (r: Option<(LevelChanged<Id>, usize)>)
        requires
            pos <= buf@.len(),
        ensures
            match r {
                Some((v, p)) => {
                    &&& pos <= p <= buf@.len()
                    &&& Self::dec(buf@.skip(pos as int)) == Some((v, buf@.skip(p as int)))
                },
                None => Self::dec(buf@.skip(pos as int)) is None,
            },
    {
        match Id::get(buf, pos) {
            None => None,
            Some((pin, p)) => match Level::get(buf, p) {
                None => None,
                Some((level, p2)) => match get_opt_u32(buf, p2) {
                    None => None,
                    Some((period_ms, p3)) => Some((LevelChanged { pin, level, period_ms }, p3)),
                },
            },
        }
    }

    pub proof fn lemma_dec(&self, rest: Seq<u8>)
        ensures
            Self::dec(self.enc() + rest) == Some((*self, rest)),
    {
        assert(self.enc() + rest =~= self.pin.enc() + (self.level.enc() + (enc_opt_u32(
            self.period_ms,
        ) + rest)));
        self.pin.lemma_dec(self.level.enc() + (enc_opt_u32(self.period_ms) + rest));
        self.level.lemma_dec(enc_opt_u32(self.period_ms) + rest);
        lemma_dec_opt_u32(self.period_ms, rest);
    }
}

} // verus!
