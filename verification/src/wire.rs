//! Primitive field codecs shared by every message schema: fixed-width
//! little-endian integers, length-prefixed byte strings, and optional byte
//! strings. Each primitive has a specification-level encoder, a
//! specification-level decoder over the remaining byte stream, a proof that
//! the two invert each other, and executable counterparts proved against
//! them.

use vstd::prelude::*;

verus! {

/// Little-endian encoding of a 16-bit integer.
pub open spec fn spec_enc_u16(x: u16) -> Seq<u8> {
    seq![(x % 256) as u8, (x / 256) as u8]
}

/// Read one byte; the rest of the stream follows.
pub open spec fn spec_dec_u8(b: Seq<u8>) -> Option<(u8, Seq<u8>)> {
    if b.len() >= 1 {
        Some((b[0], b.skip(1)))
    } else {
        None
    }
}

/// Read a little-endian 16-bit integer.
pub open spec fn spec_dec_u16(b: Seq<u8>) -> Option<(u16, Seq<u8>)> {
    if b.len() >= 2 {
        Some(((b[0] + b[1] * 256) as u16, b.skip(2)))
    } else {
        None
    }
}

/// A variable-length byte string: a 16-bit length prefix, then the bytes.
pub open spec fn spec_enc_bytes(v: Seq<u8>) -> Seq<u8>
    recommends
        v.len() <= u16::MAX,
{
    spec_enc_u16(v.len() as u16) + v
}

/// Read a length-prefixed byte string.
pub open spec fn spec_dec_bytes(b: Seq<u8>) -> Option<(Seq<u8>, Seq<u8>)> {
    match spec_dec_u16(b) {
        Some((n, r)) => if r.len() >= n {
            Some((r.take(n as int), r.skip(n as int)))
        } else {
            None
        },
        None => None,
    }
}

/// An optional byte string: a presence byte, then the string if present.
pub open spec fn spec_enc_opt_bytes(v: Option<Seq<u8>>) -> Seq<u8> {
    match v {
        None => seq![0u8],
        Some(s) => seq![1u8] + spec_enc_bytes(s),
    }
}

/// Read an optional byte string.
pub open spec fn spec_dec_opt_bytes(b: Seq<u8>) -> Option<(Option<Seq<u8>>, Seq<u8>)> {
    match spec_dec_u8(b) {
        Some((t, r)) => if t == 0 {
            Some((None, r))
        } else if t == 1 {
            match spec_dec_bytes(r) {
                Some((s, r2)) => Some((Some(s), r2)),
                None => None,
            }
        } else {
            None
        },
        None => None,
    }
}

/// The element views of a vector of optional bytes, as specifications see it.
pub open spec fn spec_opt_view(v: Option<Vec<u8>>) -> Option<Seq<u8>> {
    match v {
        Some(s) => Some(s@),
        None => None,
    }
}

pub proof fn lemma_dec_u8_rt(x: u8, rest: Seq<u8>)
    ensures
        spec_dec_u8(seq![x] + rest) == Some((x, rest)),
{
    assert((seq![x] + rest).skip(1) =~= rest);
}

pub proof fn lemma_dec_u16_rt(x: u16, rest: Seq<u8>)
    ensures
        spec_dec_u16(spec_enc_u16(x) + rest) == Some((x, rest)),
{
    let b = spec_enc_u16(x) + rest;
    assert(b.skip(2) =~= rest);
    assert((x % 256) + (x / 256) * 256 == x) by (nonlinear_arith);
}

pub proof fn lemma_dec_bytes_rt(v: Seq<u8>, rest: Seq<u8>)
    requires
        v.len() <= u16::MAX,
    ensures
        spec_dec_bytes(spec_enc_bytes(v) + rest) == Some((v, rest)),
{
    let b = spec_enc_bytes(v) + rest;
    assert(b =~= spec_enc_u16(v.len() as u16) + (v + rest));
    lemma_dec_u16_rt(v.len() as u16, v + rest);
    assert((v + rest).take(v.len() as int) =~= v);
    assert((v + rest).skip(v.len() as int) =~= rest);
}

pub proof fn lemma_dec_opt_bytes_rt(v: Option<Seq<u8>>, rest: Seq<u8>)
    requires
        v matches Some(s) ==> s.len() <= u16::MAX,
    ensures
        spec_dec_opt_bytes(spec_enc_opt_bytes(v) + rest) == Some((v, rest)),
{
    match v {
        None => {
            lemma_dec_u8_rt(0, rest);
            assert(seq![0u8] + rest =~= spec_enc_opt_bytes(v) + rest);
        },
        Some(s) => {
            let b = spec_enc_opt_bytes(v) + rest;
            assert(b =~= seq![1u8] + (spec_enc_bytes(s) + rest));
            lemma_dec_u8_rt(1, spec_enc_bytes(s) + rest);
            lemma_dec_bytes_rt(s, rest);
        },
    }
}

/// Append a little-endian 16-bit integer.
pub fn push_u16(out: &mut Vec<u8>, x: u16)
    ensures
        final(out)@ == old(out)@ + spec_enc_u16(x),
{
    out.push((x % 256) as u8);
    out.push((x / 256) as u8);
    assert(out@ =~= old(out)@ + spec_enc_u16(x));
}

/// Append a length-prefixed byte string.
pub fn push_bytes(out: &mut Vec<u8>, v: &Vec<u8>)
    requires
        v@.len() <= u16::MAX,
    ensures
        final(out)@ == old(out)@ + spec_enc_bytes(v@),
{
    push_u16(out, v.len() as u16);
    out.extend_from_slice(v.as_slice());
    assert(out@ =~= old(out)@ + spec_enc_bytes(v@));
}

/// Append an optional byte string.
pub fn push_opt_bytes(out: &mut Vec<u8>, v: &Option<Vec<u8>>)
    requires
        *v matches Some(s) ==> s@.len() <= u16::MAX,
    ensures
        final(out)@ == old(out)@ + spec_enc_opt_bytes(spec_opt_view(*v)),
{
    match v {
        None => {
            out.push(0);
            assert(out@ =~= old(out)@ + spec_enc_opt_bytes(spec_opt_view(*v)));
        },
        Some(s) => {
            out.push(1);
            push_bytes(out, s);
            assert(out@ =~= old(out)@ + spec_enc_opt_bytes(spec_opt_view(*v)));
        },
    }
}

/// Read one byte at `pos`, returning it with the next position.
pub fn read_u8(buf: &[u8], pos: usize) -> (r: Option<(u8, usize)>)
    requires
        pos <= buf@.len(),
    ensures
        match r {
            Some((x, p2)) => pos < p2 <= buf@.len() && spec_dec_u8(buf@.skip(pos as int))
                == Some((x, buf@.skip(p2 as int))),
            None => spec_dec_u8(buf@.skip(pos as int)) is None,
        },
{
    if pos < buf.len() {
        let x = buf[pos];
        assert(buf@.skip(pos as int)[0] == x);
        assert(buf@.skip(pos as int).skip(1) =~= buf@.skip(pos as int + 1));
        Some((x, pos + 1))
    } else {
        None
    }
}

/// Read a little-endian 16-bit integer at `pos`.
pub fn read_u16(buf: &[u8], pos: usize) -> (r: Option<(u16, usize)>)
    requires
        pos <= buf@.len(),
    ensures
        match r {
            Some((x, p2)) => pos < p2 <= buf@.len() && spec_dec_u16(buf@.skip(pos as int))
                == Some((x, buf@.skip(p2 as int))),
            None => spec_dec_u16(buf@.skip(pos as int)) is None,
        },
{
    if pos < buf.len() && buf.len() - pos >= 2 {
        let lo = buf[pos];
        let hi = buf[pos + 1];
        let x: u16 = lo as u16 + hi as u16 * 256;
        assert(buf@.skip(pos as int)[0] == lo);
        assert(buf@.skip(pos as int)[1] == hi);
        assert(buf@.skip(pos as int).skip(2) =~= buf@.skip(pos as int + 2));
        Some((x, pos + 2))
    } else {
        None
    }
}

/// Read a length-prefixed byte string at `pos`.
pub fn read_bytes(buf: &[u8], pos: usize) -> (r: Option<(Vec<u8>, usize)>)
    requires
        pos <= buf@.len(),
    ensures
        match r {
            Some((v, p2)) => pos < p2 <= buf@.len() && spec_dec_bytes(buf@.skip(pos as int))
                == Some((v@, buf@.skip(p2 as int))),
            None => spec_dec_bytes(buf@.skip(pos as int)) is None,
        },
{
    match read_u16(buf, pos) {
        None => None,
        Some((n, p1)) => {
            if buf.len() - p1 >= n as usize {
                let v = vstd::slice::slice_to_vec(&buf[p1..p1 + n as usize]);
                assert(buf@.skip(p1 as int).take(n as int) =~= buf@.subrange(
                    p1 as int,
                    p1 + n as int,
                ));
                assert(buf@.skip(p1 as int).skip(n as int) =~= buf@.skip(p1 + n as int));
                Some((v, p1 + n as usize))
            } else {
                None
            }
        },
    }
}

/// Read an optional byte string at `pos`.
pub fn read_opt_bytes(buf: &[u8], pos: usize) -> (r: Option<(Option<Vec<u8>>, usize)>)
    requires
        pos <= buf@.len(),
    ensures
        match r {
            Some((v, p2)) => pos < p2 <= buf@.len() && spec_dec_opt_bytes(buf@.skip(pos as int))
                == Some((spec_opt_view(v), buf@.skip(p2 as int))),
            None => spec_dec_opt_bytes(buf@.skip(pos as int)) is None,
        },
{
    match read_u8(buf, pos) {
        None => None,
        Some((t, p1)) => {
            if t == 0 {
                Some((None, p1))
            } else if t == 1 {
                match read_bytes(buf, p1) {
                    None => None,
                    Some((v, p2)) => Some((Some(v), p2)),
                }
            } else {
                None
            }
        },
    }
}

} // verus!
