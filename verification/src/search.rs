//! Byte-sequence searching used by the host-side wait loops.

use vstd::prelude::*;

verus! {

/// Whether `needle` occurs in `hay` as a contiguous run.
pub open spec fn contains_bytes(hay: Seq<u8>, needle: Seq<u8>) -> bool {
    exists|i: int|
        0 <= i <= hay.len() - needle.len() && #[trigger] hay.subrange(i, i + needle.len())
            == needle
}

/// Whether `hay` ends with `needle`.
pub open spec fn ends_with(hay: Seq<u8>, needle: Seq<u8>) -> bool {
    needle.len() <= hay.len() && hay.skip(hay.len() - needle.len()) == needle
}

/// Compares `hay[at .. at + needle.len()]` with `needle`.
#[verifier::loop_isolation(false)]
fn matches_at(hay: &[u8], needle: &[u8], at: usize) -> (r: bool)
    requires
        at + needle@.len() <= hay@.len(),
    ensures
        r == (hay@.subrange(at as int, at + needle@.len()) =~= needle@),
{
    let n: usize = hay.len();
    let mut j: usize = 0;
    while j < needle.len()
        invariant
            j <= needle@.len(),
            at + needle@.len() <= hay@.len(),
            forall|t: int| 0 <= t < j ==> hay@[at + t] == needle@[t],
        decreases needle@.len() - j,
    {
        if hay[at + j] != needle[j] {
            proof {
                assert(hay@.subrange(at as int, at + needle@.len())[j as int] == hay@[at + j]);
            }
            return false;
        }
        j = j + 1;
    }
    proof {
        assert forall|t: int| 0 <= t < needle@.len() implies hay@.subrange(
            at as int,
            at + needle@.len(),
        )[t] == needle@[t] by {
            assert(hay@[at + t] == needle@[t]);
        }
    }
    true
}

/// Whether `needle` occurs in `hay` as a contiguous run.
pub fn contains_slice(hay: &[u8], needle: &[u8]) -> (r: bool)
    ensures
        r == contains_bytes(hay@, needle@),
{
    if needle.len() > hay.len() {
        proof {
            assert(!contains_bytes(hay@, needle@));
        }
        return false;
    }
    let mut i: usize = 0;
    while i <= hay.len() - needle.len()
        invariant
            needle@.len() <= hay@.len(),
            i <= hay@.len() - needle@.len() + 1,
            forall|t: int| 0 <= t < i ==> #[trigger] hay@.subrange(t, t + needle@.len()) != needle@,
        decreases hay@.len() - needle@.len() - i + 1,
    {
        if matches_at(hay, needle, i) {
            assert(hay@.subrange(i as int, i + needle@.len()) == needle@);
            return true;
        }
        i = i + 1;
    }
    false
}

/// Whether `hay` ends with `needle`.
pub fn ends_with_slice(hay: &[u8], needle: &[u8]) -> (r: bool)
    ensures
        r == ends_with(hay@, needle@),
{
    if needle.len() > hay.len() {
        return false;
    }
    let at = hay.len() - needle.len();
    let r = matches_at(hay, needle, at);
    proof {
        assert(hay@.skip(hay@.len() - needle@.len()) =~= hay@.subrange(
            at as int,
            at + needle@.len(),
        ));
        if hay@.skip(hay@.len() - needle@.len()) =~= needle@ {
            assert(hay@.subrange(at as int, at + needle@.len()) =~= needle@);
        }
    }
    r
}

} // verus!
