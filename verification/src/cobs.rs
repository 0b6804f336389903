//! Byte stuffing for self-delimiting frames.
//!
//! A frame is an encoded message run through Consistent Overhead Byte
//! Stuffing, so that the single reserved value `0x00` never occurs in the
//! stuffed body and can therefore serve as the frame terminator on the wire.
//! `cobs_encode` produces the stuffed body (the caller appends the `0x00`
//! terminator); `cobs_decode` reverses it, rejecting malformed input.

use vstd::prelude::*;

verus! {

/// Longest prefix of `s` that contains no zero byte.
pub open spec fn nz_prefix_len(s: Seq<u8>) -> nat
    decreases s.len(),
{
    if s.len() == 0 || s[0] == 0 {
        0
    } else {
        1 + nz_prefix_len(s.drop_first())
    }
}

proof fn lemma_nz_prefix_len(s: Seq<u8>)
    ensures
        nz_prefix_len(s) <= s.len(),
        forall|i: int| 0 <= i < nz_prefix_len(s) ==> s[i] != 0,
        nz_prefix_len(s) < s.len() ==> s[nz_prefix_len(s) as int] == 0,
    decreases s.len(),
{
    if s.len() == 0 || s[0] == 0 {
    } else {
        lemma_nz_prefix_len(s.drop_first());
        assert forall|i: int| 0 <= i < nz_prefix_len(s) implies s[i] != 0 by {
            if i > 0 {
                assert(s.drop_first()[i - 1] != 0);
            }
        }
    }
}

/// The group the stuffing step takes next: at most 254 leading non-zero
/// bytes.
pub open spec fn group_len(s: Seq<u8>) -> nat {
    if nz_prefix_len(s) < 254 {
        nz_prefix_len(s)
    } else {
        254
    }
}

/// Stuffed form of `s`: each group of up to 254 non-zero bytes becomes a
/// one-byte code (group length + 1) followed by the group; a code below 255
/// stands for a zero byte of the input, except at the very end.
pub open spec fn cobs_stuff(s: Seq<u8>) -> Seq<u8>
    decreases s.len(),
    via cobs_stuff_decreases
{
    let k = group_len(s) as int;
    if k == 254 {
        seq![255u8] + s.take(254) + cobs_stuff(s.skip(254))
    } else if s.len() == k {
        seq![(k + 1) as u8] + s.take(k)
    } else {
        seq![(k + 1) as u8] + s.take(k) + cobs_stuff(s.skip(k + 1))
    }
}

#[via_fn]
proof fn cobs_stuff_decreases(s: Seq<u8>) {
    lemma_nz_prefix_len(s);
}

/// Whether `s` has a zero byte among indices `[1, 1 + k)`.
pub open spec fn body_has_zero(s: Seq<u8>, k: int) -> bool {
    exists|i: int| 1 <= i < 1 + k && s[i] == 0
}

/// Inverse of `cobs_stuff`; `None` on input no stuffing step produces
/// (empty input, a zero code byte, a truncated group, or a zero inside a
/// group).
pub open spec fn cobs_unstuff(s: Seq<u8>) -> Option<Seq<u8>>
    decreases s.len(),
{
    if s.len() == 0 {
        None
    } else if s[0] == 0 {
        None
    } else {
        let k = s[0] - 1;
        if s.len() < 1 + k {
            None
        } else if body_has_zero(s, k as int) {
            None
        } else if s.len() == 1 + k {
            Some(s.subrange(1, 1 + k))
        } else {
            match cobs_unstuff(s.skip(1 + k)) {
                Option::None => None,
                Option::Some(rest) => {
                    if s[0] == 255 {
                        Some(s.subrange(1, 1 + k) + rest)
                    } else {
                        Some(s.subrange(1, 1 + k) + seq![0u8] + rest)
                    }
                }
            }
        }
    }
}

/// The stuffed form never contains a zero byte: `0x00` on the wire always
/// means end of frame.
pub proof fn lemma_stuff_no_zero(s: Seq<u8>)
    ensures
        forall|i: int| 0 <= i < cobs_stuff(s).len() ==> cobs_stuff(s)[i] != 0,
    decreases s.len(),
{
    lemma_nz_prefix_len(s);
    let k = group_len(s) as int;
    if k == 254 {
        lemma_stuff_no_zero(s.skip(254));
        assert forall|i: int| 0 <= i < cobs_stuff(s).len() implies cobs_stuff(s)[i] != 0 by {
            if 1 <= i < 255 {
                assert(s.take(254)[i - 1] != 0);
            } else if i >= 255 {
                assert(cobs_stuff(s.skip(254))[i - 255] != 0);
            }
        }
    } else if s.len() == k {
        assert forall|i: int| 0 <= i < cobs_stuff(s).len() implies cobs_stuff(s)[i] != 0 by {
            if 1 <= i {
                assert(s.take(k)[i - 1] != 0);
            }
        }
    } else {
        lemma_stuff_no_zero(s.skip(k + 1));
        assert forall|i: int| 0 <= i < cobs_stuff(s).len() implies cobs_stuff(s)[i] != 0 by {
            if 1 <= i < 1 + k {
                assert(s.take(k)[i - 1] != 0);
            } else if i >= 1 + k {
                assert(cobs_stuff(s.skip(k + 1))[i - (1 + k)] != 0);
            }
        }
    }
}

/// Unstuffing a stuffed sequence gives the original back: framing loses no
/// information, whatever bytes (zeros included) the payload holds.
pub proof fn lemma_cobs_round_trip(s: Seq<u8>)
    ensures
        cobs_unstuff(cobs_stuff(s)) == Some(s),
    decreases s.len(),
{
    lemma_nz_prefix_len(s);
    let k = group_len(s) as int;
    let e = cobs_stuff(s);
    assert(e[0] == k + 1);
    assert forall|i: int| 1 <= i < 1 + k implies e[i] != 0 by {
        assert(e[i] == s.take(k as int)[i - 1]);
        assert(s[i - 1] != 0);
    }
    assert(!body_has_zero(e, k));
    assert(e.subrange(1, 1 + k) =~= s.take(k));
    if k == 254 {
        lemma_cobs_round_trip(s.skip(254));
        let rest = cobs_stuff(s.skip(254));
        assert(rest.len() > 0);
        assert(e.len() > 255);
        assert(e.skip(255) =~= rest);
        assert(cobs_unstuff(e.skip(255)) == Some(s.skip(254)));
        assert(cobs_unstuff(e) == Some(s.take(254) + s.skip(254)));
        assert(s.take(254) + s.skip(254) =~= s);
    } else if s.len() == k {
        assert(e.len() == 1 + k);
        assert(cobs_unstuff(e) == Some(s.take(k)));
        assert(s.take(k) =~= s);
    } else {
        lemma_cobs_round_trip(s.skip(k + 1));
        let rest = cobs_stuff(s.skip(k + 1));
        assert(rest.len() > 0);
        assert(e.len() > 1 + k);
        assert(e.skip(1 + k) =~= rest);
        assert(cobs_unstuff(e.skip(1 + k)) == Some(s.skip(k + 1)));
        assert(e[0] != 255);
        assert(cobs_unstuff(e) == Some(s.take(k) + seq![0u8] + s.skip(k + 1)));
        assert(s[k] == 0);
        assert(s.take(k) + seq![0u8] + s.skip(k + 1) =~= s);
    }
}

/// Stuffs `data` for the wire. The result never contains `0x00`; the caller
/// appends the terminator.
#[verifier::loop_isolation(false)]
#[verifier::rlimit(60)]
pub fn cobs_encode(data: &[u8]) -> (r: Vec<u8>)
    ensures
        r@ == cobs_stuff(data@),
        forall|i: int| 0 <= i < r@.len() ==> r@[i] != 0,
{
    let mut out: Vec<u8> = Vec::new();
    let mut i: usize = 0;
    proof {
        lemma_stuff_no_zero(data@);
        assert(data@.skip(0) =~= data@);
    }
    loop
        invariant
            i <= data@.len(),
            cobs_stuff(data@) == out@ + cobs_stuff(data@.skip(i as int)),
        decreases data@.len() - i,
    {
        proof {
            lemma_nz_prefix_len(data@.skip(i as int));
        }
        // Scan the next group: up to 254 leading non-zero bytes.
        let mut j: usize = i;
        while j < data.len() && j - i < 254 && data[j] != 0
            invariant
                i <= j <= data@.len(),
                j - i <= 254,
                forall|t: int| i <= t < j ==> data@[t] != 0,
            decreases data@.len() - j,
        {
            j = j + 1;
        }
        let k: usize = j - i;
        proof {
            let rem = data@.skip(i as int);
            assert forall|t: int| 0 <= t < k implies rem[t] != 0 by {
                assert(rem[t] == data@[i + t]);
            }
            if nz_prefix_len(rem) < k {
                assert(rem[nz_prefix_len(rem) as int] == 0);
                assert(false);
            }
            if k < 254 && nz_prefix_len(rem) > k {
                // the scan stopped early, at the end or at a zero
                assert(rem[k as int] != 0);
                assert(data@[i + k] != 0);
                assert(false);
            }
            assert(group_len(rem) == k);
        }
        out.push((k + 1) as u8);
        let ghost out0 = out@;
        let mut t: usize = i;
        while t < j
            invariant
                i <= t <= j,
                j <= data@.len(),
                out@ == out0 + data@.subrange(i as int, t as int),
            decreases j - t,
        {
            out.push(data[t]);
            t = t + 1;
        }
        proof {
            let rem = data@.skip(i as int);
            assert(data@.subrange(i as int, j as int) =~= rem.take(k as int));
        }
        if j >= data.len() {
            if k >= 254 {
                // a full group at the very end still takes an empty closing
                // group
                out.push(1u8);
                proof {
                    let rem = data@.skip(i as int);
                    let empty = rem.skip(254);
                    assert(empty =~= Seq::<u8>::empty());
                    assert(cobs_stuff(empty) =~= seq![1u8]);
                    assert(cobs_stuff(rem) =~= seq![255u8] + rem.take(254) + seq![1u8]);
                    assert(out@ =~= (out0.drop_last() + cobs_stuff(rem)).skip(0));
                    assert(out0.drop_last() + cobs_stuff(rem) =~= cobs_stuff(data@));
                    assert(out@ =~= cobs_stuff(data@));
                }
            } else {
                proof {
                    let rem = data@.skip(i as int);
                    assert(rem.len() == k);
                    assert(cobs_stuff(rem) =~= seq![(k + 1) as u8] + rem.take(k as int));
                    assert(out@ =~= out0.drop_last() + cobs_stuff(rem));
                    assert(out@ =~= cobs_stuff(data@));
                }
            }
            return out;
        }
        let consumed: usize = if k >= 254 {
            k
        } else {
            k + 1
        };
        proof {
            let rem = data@.skip(i as int);
            if k == 254 {
                assert(cobs_stuff(rem) =~= seq![255u8] + rem.take(254) + cobs_stuff(rem.skip(254)));
                assert(rem.skip(254) =~= data@.skip(i + 254));
                assert(out@ + cobs_stuff(data@.skip(i + consumed))
                    =~= out0.drop_last() + cobs_stuff(rem));
                assert(cobs_stuff(data@) =~= out@ + cobs_stuff(data@.skip(i + consumed)));
            } else {
                assert(rem.len() > k);
                assert(rem[k as int] == 0);
                assert(cobs_stuff(rem) =~= seq![(k + 1) as u8] + rem.take(k as int)
                    + cobs_stuff(rem.skip(k + 1)));
                assert(rem.skip(k + 1) =~= data@.skip(i + consumed));
                assert(out@ + cobs_stuff(data@.skip(i + consumed))
                    =~= out0.drop_last() + cobs_stuff(rem));
                assert(cobs_stuff(data@) =~= out@ + cobs_stuff(data@.skip(i + consumed)));
            }
        }
        i = i + consumed;
    }
}

/// Unstuffs a frame body (terminator already stripped). Returns `None` when
/// the bytes are not a stuffed sequence.
#[verifier::loop_isolation(false)]
pub fn cobs_decode(data: &[u8]) -> (r: Option<Vec<u8>>)
    ensures
        match r {
            Some(out) => cobs_unstuff(data@) == Some(out@),
            None => cobs_unstuff(data@) is None,
        },
{
    let mut out: Vec<u8> = Vec::new();
    let mut i: usize = 0;
    if data.len() == 0 {
        return None;
    }
    proof {
        assert(data@.skip(0) =~= data@);
    }
    loop
        invariant
            i < data@.len(),
            match cobs_unstuff(data@.skip(i as int)) {
                Option::Some(rest) => cobs_unstuff(data@) == Some(out@ + rest),
                Option::None => cobs_unstuff(data@) is None,
            },
        decreases data@.len() - i,
    {
        let code = data[i];
        if code == 0 {
            return None;
        }
        let k: usize = (code - 1) as usize;
        if data.len() - i < 1 + k {
            proof {
                assert(data@.skip(i as int).len() < 1 + k);
            }
            return None;
        }
        // Copy the group body, rejecting any zero inside it.
        let ghost out0 = out@;
        let mut t: usize = 0;
        while t < k
            invariant
                t <= k,
                i + 1 + k <= data@.len(),
                forall|u: int| i + 1 <= u < i + 1 + t ==> data@[u] != 0,
                out@ == out0 + data@.subrange(i + 1, i + 1 + t),
            decreases k - t,
        {
            let b = data[i + 1 + t];
            if b == 0 {
                proof {
                    let rem = data@.skip(i as int);
                    assert(rem[1 + t] == 0);
                    assert(body_has_zero(rem, k as int));
                }
                return None;
            }
            out.push(b);
            t = t + 1;
        }
        proof {
            let rem = data@.skip(i as int);
            assert(rem[0] == code);
            assert forall|u: int| 1 <= u < 1 + k implies rem[u] != 0 by {
                assert(rem[u] == data@[i + u]);
            }
            assert(!body_has_zero(rem, k as int));
            assert(rem.subrange(1, 1 + k) =~= data@.subrange(i + 1, i + 1 + k));
        }
        if data.len() - i == 1 + k {
            proof {
                let rem = data@.skip(i as int);
                assert(rem.len() == 1 + k);
                assert(cobs_unstuff(rem) == Some(rem.subrange(1, 1 + k)));
                assert(out@ =~= out0 + rem.subrange(1, 1 + k));
            }
            return Some(out);
        }
        if code != 255 {
            out.push(0u8);
        }
        proof {
            let rem = data@.skip(i as int);
            assert(rem.len() > 1 + k);
            assert(rem.skip(1 + k) =~= data@.skip(i + 1 + k));
            match cobs_unstuff(data@.skip(i + 1 + k)) {
                Option::Some(rest) => {
                    if code == 255 {
                        assert(cobs_unstuff(rem) == Some(rem.subrange(1, 1 + k) + rest));
                        assert(out@ + rest =~= out0 + (rem.subrange(1, 1 + k) + rest));
                    } else {
                        assert(cobs_unstuff(rem) == Some(
                            rem.subrange(1, 1 + k) + seq![0u8] + rest,
                        ));
                        assert(out@ + rest =~= out0 + (rem.subrange(1, 1 + k) + seq![0u8]
                            + rest));
                    }
                }
                Option::None => {
                    assert(cobs_unstuff(rem) is None);
                }
            }
        }
        i = i + 1 + k;
    }
}

} // verus!
