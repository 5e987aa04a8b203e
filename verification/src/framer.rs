//! Byte-stuffed framing. A payload is stuffed so that it contains no 0x00
//! byte, then a single 0x00 terminator is appended; frame boundaries are
//! therefore recoverable from any byte stream by scanning for 0x00.
//!
//! Stuffing follows the consistent-overhead scheme: the output is a run of
//! blocks, each a code byte `c` (1..=255) followed by `c - 1` non-zero data
//! bytes. A code below 255 stands for those data bytes followed by one
//! payload zero, except in the final block, which adds no zero; a code of
//! 255 stands for 254 data bytes with no zero.

use vstd::prelude::*;

verus! {

/// Errors the unframer can report.
#[derive(Debug, Clone, Copy, PartialEq, Eq, Structural)]
pub enum FramerError {
    /// The byte stream is damaged: the stuffing structure is invalid.
    Corrupt,
    /// No terminator byte is present yet; more bytes are pending.
    Truncated,
}

/// Length of the longest prefix of `p` free of 0x00 bytes, capped at `cap`.
pub open spec fn nz_run(p: Seq<u8>, cap: nat) -> nat
    decreases p.len(),
{
    if cap == 0 || p.len() == 0 || p[0] == 0 {
        0
    } else {
        1 + nz_run(p.skip(1), (cap - 1) as nat)
    }
}

/// What `nz_run` returns: the first position that is a zero, the cap, or the
/// end of the sequence, whichever comes first.
pub proof fn lemma_nz_run(p: Seq<u8>, cap: nat)
    ensures
        nz_run(p, cap) <= cap,
        nz_run(p, cap) <= p.len(),
        forall|i: int| 0 <= i < nz_run(p, cap) ==> p[i] != 0,
        nz_run(p, cap) < p.len() && nz_run(p, cap) < cap ==> p[nz_run(p, cap) as int] == 0,
    decreases p.len(),
{
    if cap == 0 || p.len() == 0 || p[0] == 0 {
    } else {
        lemma_nz_run(p.skip(1), (cap - 1) as nat);
        assert forall|i: int| 0 <= i < nz_run(p, cap) implies p[i] != 0 by {
            if i > 0 {
                assert(p[i] == p.skip(1)[i - 1]);
            }
        }
        if nz_run(p, cap) < p.len() && nz_run(p, cap) < cap {
            assert(p[nz_run(p, cap) as int] == p.skip(1)[nz_run(p.skip(1), (cap - 1) as nat) as int]);
        }
    }
}

/// A position with the properties of `lemma_nz_run` is `nz_run` itself.
pub proof fn lemma_nz_run_is(p: Seq<u8>, cap: nat, j: nat)
    requires
        j <= cap,
        j <= p.len(),
        forall|i: int| 0 <= i < j ==> p[i] != 0,
        j == cap || j == p.len() || p[j as int] == 0,
    ensures
        nz_run(p, cap) == j,
    decreases p.len(),
{
    if j == 0 {
    } else {
        assert(p[0] != 0);
        assert forall|i: int| 0 <= i < j - 1 implies p.skip(1)[i] != 0 by {
            assert(p.skip(1)[i] == p[i + 1]);
        }
        if j < cap && j < p.len() {
            assert(p.skip(1)[j - 1] == p[j as int]);
        }
        lemma_nz_run_is(p.skip(1), (cap - 1) as nat, (j - 1) as nat);
    }
}

/// The stuffed form of a payload, without the trailing terminator.
pub open spec fn spec_stuff(p: Seq<u8>) -> Seq<u8>
    decreases p.len(),
    via spec_stuff_decreases
{
    let n = nz_run(p, 254);
    if n == p.len() {
        seq![(n + 1) as u8] + p
    } else if n == 254 {
        seq![255u8] + p.take(254) + spec_stuff(p.skip(254))
    } else {
        seq![(n + 1) as u8] + p.take(n as int) + spec_stuff(p.skip(n as int + 1))
    }
}

#[via_fn]
proof fn spec_stuff_decreases(p: Seq<u8>) {
    lemma_nz_run(p, 254);
}

/// The inverse of `spec_stuff`: `None` stands for invalid stuffing.
pub open spec fn spec_unstuff(b: Seq<u8>) -> Option<Seq<u8>>
    decreases b.len(),
{
    if b.len() == 0 {
        None
    } else {
        let c = b[0] as int;
        if b[0] == 0 {
            None
        } else if b.len() < c {
            None
        } else if exists|i: int| 1 <= i < c && b[i] == 0 {
            None
        } else {
            let data = b.subrange(1, c);
            let rest = b.skip(c);
            if rest.len() == 0 {
                Some(data)
            } else if c < 255 {
                match spec_unstuff(rest) {
                    Some(tail) => Some(data + seq![0u8] + tail),
                    None => None,
                }
            } else {
                match spec_unstuff(rest) {
                    Some(tail) => Some(data + tail),
                    None => None,
                }
            }
        }
    }
}

/// A complete frame: the stuffed payload followed by the 0x00 terminator.
pub open spec fn spec_frame(p: Seq<u8>) -> Seq<u8> {
    spec_stuff(p) + seq![0u8]
}

/// Position of the first 0x00 in `b`; `b.len()` when there is none.
pub open spec fn spec_terminator_pos(b: Seq<u8>) -> nat {
    nz_run(b, b.len())
}

/// The inverse of `spec_frame` on a drained segment: `Truncated` while no
/// terminator is present, `Corrupt` when the terminator is not the final
/// byte or the stuffing before it is invalid.
pub open spec fn spec_unframe(b: Seq<u8>) -> Result<Seq<u8>, FramerError> {
    let t = spec_terminator_pos(b);
    if t == b.len() {
        Err(FramerError::Truncated)
    } else if t + 1 != b.len() {
        Err(FramerError::Corrupt)
    } else {
        match spec_unstuff(b.take(t as int)) {
            Some(p) => Ok(p),
            None => Err(FramerError::Corrupt),
        }
    }
}

/// Stuffing never emits a zero byte.
pub proof fn lemma_stuff_no_zeros(p: Seq<u8>)
    ensures
        forall|i: int| 0 <= i < spec_stuff(p).len() ==> spec_stuff(p)[i] != 0,
    decreases p.len(),
{
    lemma_nz_run(p, 254);
    let n = nz_run(p, 254);
    let s = spec_stuff(p);
    if n == p.len() {
        assert forall|i: int| 0 <= i < s.len() implies s[i] != 0 by {
            if 1 <= i {
                assert(s[i] == p[i - 1]);
            }
        }
    } else if n == 254 {
        lemma_stuff_no_zeros(p.skip(254));
        assert forall|i: int| 0 <= i < s.len() implies s[i] != 0 by {
            if 1 <= i < 255 {
                assert(s[i] == p[i - 1]);
            } else if 255 <= i {
                assert(s[i] == spec_stuff(p.skip(254))[i - 255]);
            }
        }
    } else {
        lemma_stuff_no_zeros(p.skip(n as int + 1));
        assert forall|i: int| 0 <= i < s.len() implies s[i] != 0 by {
            if 1 <= i < n + 1 {
                assert(s[i] == p[i - 1]);
            } else if n + 1 <= i {
                assert(s[i] == spec_stuff(p.skip(n as int + 1))[i - n - 1]);
            }
        }
    }
}

/// Stuffing is never empty, and its overhead is at most one byte per 254
/// payload bytes plus one.
pub proof fn lemma_stuff_len(p: Seq<u8>)
    ensures
        1 <= spec_stuff(p).len(),
        spec_stuff(p).len() <= p.len() + p.len() / 254 + 1,
    decreases p.len(),
{
    lemma_nz_run(p, 254);
    let n = nz_run(p, 254);
    if n == p.len() {
    } else if n == 254 {
        lemma_stuff_len(p.skip(254));
        assert((p.len() - 254) / 254 == p.len() / 254 - 1) by (nonlinear_arith)
            requires
                p.len() >= 254,
        ;
    } else {
        lemma_stuff_len(p.skip(n as int + 1));
        assert((p.len() - n - 1) / 254 <= p.len() / 254) by (nonlinear_arith)
            requires
                0 <= n,
                n + 1 <= p.len(),
        ;
    }
}

/// Unstuffing a stuffed payload gives the payload back, for every payload.
pub proof fn lemma_stuff_round_trip(p: Seq<u8>)
    ensures
        spec_unstuff(spec_stuff(p)) == Some(p),
    decreases p.len(),
{
    lemma_nz_run(p, 254);
    let n = nz_run(p, 254);
    let s = spec_stuff(p);
    if n == p.len() {
        assert(s.subrange(1, n as int + 1) =~= p);
        assert(s.skip(n as int + 1) =~= Seq::<u8>::empty());
    } else if n == 254 {
        lemma_stuff_round_trip(p.skip(254));
        lemma_stuff_len(p.skip(254));
        lemma_stuff_no_zeros(p.skip(254));
        assert(s.subrange(1, 255) =~= p.take(254));
        assert(s.skip(255) =~= spec_stuff(p.skip(254)));
        assert(p.take(254) + p.skip(254) =~= p);
    } else {
        lemma_stuff_round_trip(p.skip(n as int + 1));
        lemma_stuff_len(p.skip(n as int + 1));
        lemma_stuff_no_zeros(p.skip(n as int + 1));
        assert(s.subrange(1, n as int + 1) =~= p.take(n as int));
        assert(s.skip(n as int + 1) =~= spec_stuff(p.skip(n as int + 1)));
        assert(p[n as int] == 0);
        assert(p.take(n as int) + seq![0u8] + p.skip(n as int + 1) =~= p);
    }
}

/// Framer round trip: unframing a frame yields the original payload.
pub proof fn lemma_frame_round_trip(p: Seq<u8>)
    ensures
        spec_unframe(spec_frame(p)) == Ok::<Seq<u8>, FramerError>(p),
{
    let b = spec_frame(p);
    let s = spec_stuff(p);
    lemma_stuff_no_zeros(p);
    lemma_stuff_len(p);
    assert(b[s.len() as int] == 0);
    lemma_nz_run_is(b, b.len(), s.len());
    assert(b.take(s.len() as int) =~= s);
    lemma_stuff_round_trip(p);
}

/// Two frames laid end to end stay independently recoverable: the first
/// terminator of the concatenation closes the first frame exactly, and the
/// bytes after it are exactly the second frame.
pub proof fn lemma_frame_concat(p1: Seq<u8>, p2: Seq<u8>)
    ensures
        spec_terminator_pos(spec_frame(p1) + spec_frame(p2)) + 1 == spec_frame(p1).len(),
        (spec_frame(p1) + spec_frame(p2)).take(spec_frame(p1).len() as int) == spec_frame(p1),
        (spec_frame(p1) + spec_frame(p2)).skip(spec_frame(p1).len() as int) == spec_frame(p2),
        spec_unframe(spec_frame(p1)) == Ok::<Seq<u8>, FramerError>(p1),
        spec_unframe(spec_frame(p2)) == Ok::<Seq<u8>, FramerError>(p2),
{
    let b = spec_frame(p1) + spec_frame(p2);
    let s = spec_stuff(p1);
    lemma_stuff_no_zeros(p1);
    lemma_stuff_len(p1);
    assert(b[s.len() as int] == 0);
    lemma_nz_run_is(b, b.len(), s.len());
    assert(b.take(spec_frame(p1).len() as int) =~= spec_frame(p1));
    assert(b.skip(spec_frame(p1).len() as int) =~= spec_frame(p2));
    lemma_frame_round_trip(p1);
    lemma_frame_round_trip(p2);
}

/// Byte-stuff `payload` and append the 0x00 terminator.
pub fn frame(payload: &[u8]) -> (out: Vec<u8>)
    ensures
        out@ == spec_frame(payload@),
{
    let len = payload.len();
    let mut out: Vec<u8> = Vec::new();
    let mut idx: usize = 0;
    proof {
        assert(payload@.skip(0) =~= payload@);
        assert(Seq::<u8>::empty() + spec_stuff(payload@) =~= spec_stuff(payload@));
    }
    loop
        invariant_except_break
            idx <= len,
            len == payload@.len(),
            spec_stuff(payload@) == out@ + spec_stuff(payload@.skip(idx as int)),
        ensures
            out@ == spec_stuff(payload@),
        decreases len - idx,
    {
        let ghost rem = payload@.skip(idx as int);
        let ghost out0 = out@;
        let mut n: usize = 0;
        while idx + n < len && n < 254 && payload[idx + n] != 0
            invariant
                idx <= len,
                len == payload@.len(),
                n <= 254,
                idx + n <= len,
                forall|i: int| 0 <= i < n ==> rem[i] != 0,
                rem == payload@.skip(idx as int),
            decreases len - idx - n,
        {
            assert(rem[n as int] == payload@[idx + n]);
            n = n + 1;
        }
        proof {
            if idx + n < len && n < 254 {
                assert(rem[n as int] == payload@[idx + n]);
            }
            lemma_nz_run_is(rem, 254, n as nat);
        }
        if idx + n == len {
            out.push((n + 1) as u8);
            out.extend_from_slice(&payload[idx..len]);
            proof {
                assert(payload@.subrange(idx as int, len as int) =~= rem);
                assert(out@ =~= out0 + (seq![(n + 1) as u8] + rem));
            }
            break;
        } else if n == 254 {
            out.push(255);
            out.extend_from_slice(&payload[idx..idx + 254]);
            proof {
                assert(payload@.subrange(idx as int, idx + 254) =~= rem.take(254));
                assert(payload@.skip(idx + 254) =~= rem.skip(254));
                assert(out@ =~= out0 + (seq![255u8] + rem.take(254)));
                assert(out@ + spec_stuff(rem.skip(254)) =~= out0 + (seq![255u8] + rem.take(254)
                    + spec_stuff(rem.skip(254))));
            }
            idx = idx + 254;
        } else {
            out.push((n + 1) as u8);
            out.extend_from_slice(&payload[idx..idx + n]);
            proof {
                assert(payload@.subrange(idx as int, idx + n) =~= rem.take(n as int));
                assert(payload@.skip(idx + n + 1) =~= rem.skip(n as int + 1));
                assert(out@ =~= out0 + (seq![(n + 1) as u8] + rem.take(n as int)));
                assert(out@ + spec_stuff(rem.skip(n as int + 1)) =~= out0 + (seq![(n + 1) as u8]
                    + rem.take(n as int) + spec_stuff(rem.skip(n as int + 1))));
            }
            idx = idx + n + 1;
        }
    }
    out.push(0);
    proof {
        assert(out@ =~= spec_frame(payload@));
    }
    out
}

/// Recover the payload from one drained frame segment. The segment is
/// expected to be a stuffed payload followed by its terminator; anything
/// else is reported exactly as `spec_unframe` classifies it.
pub fn unframe(buf: &[u8]) -> (r: Result<Vec<u8>, FramerError>)
    ensures
        match r {
            Ok(p) => spec_unframe(buf@) == Ok::<Seq<u8>, FramerError>(p@),
            Err(e) => spec_unframe(buf@) == Err::<Seq<u8>, FramerError>(e),
        },
{
    let len = buf.len();
    let mut t: usize = 0;
    while t < len && buf[t] != 0
        invariant
            t <= len,
            len == buf@.len(),
            forall|i: int| 0 <= i < t ==> buf@[i] != 0,
        decreases len - t,
    {
        t = t + 1;
    }
    proof {
        lemma_nz_run_is(buf@, buf@.len(), t as nat);
    }
    if t == len {
        return Err(FramerError::Truncated);
    }
    if t + 1 != len {
        return Err(FramerError::Corrupt);
    }
    let ghost body = buf@.take(t as int);
    let mut pos: usize = 0;
    let mut out: Vec<u8> = Vec::new();
    proof {
        assert(body.skip(0) =~= body);
        match spec_unstuff(body) {
            Some(p) => {
                assert(Seq::<u8>::empty() + p =~= p);
            },
            None => {},
        }
    }
    loop
        invariant_except_break
            pos <= t,
            t + 1 == len,
            len == buf@.len(),
            body == buf@.take(t as int),
            forall|i: int| 0 <= i < t ==> buf@[i] != 0,
            spec_unframe(buf@) == match spec_unstuff(body) {
                Some(p) => Ok::<Seq<u8>, FramerError>(p),
                None => Err::<Seq<u8>, FramerError>(FramerError::Corrupt),
            },
            spec_unstuff(body) == match spec_unstuff(body.skip(pos as int)) {
                Some(tail) => Some(out@ + tail),
                None => None::<Seq<u8>>,
            },
        ensures
            spec_unstuff(body) == Some(out@),
            spec_unframe(buf@) == Ok::<Seq<u8>, FramerError>(out@),
        decreases t - pos,
    {
        let ghost rem = body.skip(pos as int);
        let ghost out0 = out@;
        if pos == t {
            // An empty remainder is invalid stuffing: every frame holds at
            // least one block.
            assert(rem.len() == 0);
            return Err(FramerError::Corrupt);
        }
        let c = buf[pos];
        assert(rem[0] == buf@[pos as int]);
        assert(c != 0);
        if (t - pos) < c as usize {
            assert(rem.len() < c as int);
            return Err(FramerError::Corrupt);
        }
        proof {
            assert forall|i: int| 1 <= i < c as int implies rem[i] != 0 by {
                assert(rem[i] == buf@[pos + i]);
            }
        }
        out.extend_from_slice(&buf[pos + 1..pos + c as usize]);
        proof {
            assert(buf@.subrange(pos + 1, pos + c as int) =~= rem.subrange(1, c as int));
        }
        if pos + c as usize == t {
            proof {
                assert(rem.skip(c as int).len() == 0);
                assert(spec_unstuff(rem) == Some(rem.subrange(1, c as int)));
                assert(out@ =~= out0 + rem.subrange(1, c as int));
            }
            break;
        }
        if c < 255 {
            out.push(0);
        }
        proof {
            let rest = body.skip(pos + c as int);
            assert(rem.skip(c as int) =~= rest);
            assert(rest.len() > 0);
            match spec_unstuff(rest) {
                Some(tail) => {
                    if c < 255 {
                        assert(spec_unstuff(rem) == Some(rem.subrange(1, c as int) + seq![0u8]
                            + tail));
                        assert(out0 + (rem.subrange(1, c as int) + seq![0u8] + tail) =~= out@
                            + tail);
                    } else {
                        assert(spec_unstuff(rem) == Some(rem.subrange(1, c as int) + tail));
                        assert(out0 + (rem.subrange(1, c as int) + tail) =~= out@ + tail);
                    }
                },
                None => {
                    assert(spec_unstuff(rem) is None);
                },
            }
        }
        pos = pos + c as usize;
    }
    Ok(out)
}

} // verus!
