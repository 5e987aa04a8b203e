//! The message codec: a compact, self-describing-per-variant binary
//! encoding. Numeric fields are fixed-width little-endian, variable-length
//! fields are length-prefixed, and every tagged union starts with a one-byte
//! discriminant. Each message schema implements [`WireMessage`]; records
//! that appear inside length-prefixed lists implement [`WireRecord`].

use vstd::prelude::*;

use crate::wire::spec_enc_u16;
use crate::wire::spec_dec_u16;
use crate::wire::read_u16;
use crate::wire::push_u16;

verus! {

/// Decoding failed: short input, an invalid discriminant, or an oversized
/// length. The decoder never reads out of bounds.
#[derive(Debug, Clone, Copy, PartialEq, Eq, Structural)]
pub enum DecodeError {
    BadEncoding,
}

/// Encoding failed: a field of the message exceeds the schema bounds.
#[derive(Debug, Clone, Copy, PartialEq, Eq, Structural)]
pub enum EncodeError {
    FieldTooLong,
}

/// A message schema: a closed tagged union with a total specification
/// encoder over its view, a decoder that inverts it, and executable
/// encode/decode proved against the two.
pub trait WireMessage: View + Sized {
    /// The schema bounds under which the message is encodable.
    spec fn inv(v: Self::V) -> bool;

    /// The byte encoding of a message view.
    spec fn spec_encode(v: Self::V) -> Seq<u8>;

    /// The decoder: `None` stands for a structural mismatch.
    spec fn spec_decode(b: Seq<u8>) -> Option<Self::V>;

    /// Codec round trip: decoding an encoding returns the message.
    proof fn lemma_round_trip(v: Self::V)
        requires
            Self::inv(v),
        ensures
            Self::spec_decode(Self::spec_encode(v)) == Some(v),
    ;

    /// Serialize the message; fails exactly when a field exceeds bounds.
    fn encode(&self) -> (r: Result<Vec<u8>, EncodeError>)
        ensures
            match r {
                Ok(bytes) => Self::inv(self@) && bytes@ == Self::spec_encode(self@),
                Err(_) => !Self::inv(self@),
            },
    ;

    /// Deserialize a message; fails exactly when the bytes decode to none.
    fn decode(buf: &[u8]) -> (r: Result<Self, DecodeError>)
        ensures
            match r {
                Ok(m) => Self::spec_decode(buf@) == Some(m@),
                Err(_) => Self::spec_decode(buf@) is None,
            },
    ;
}

/// A record that can appear inside a length-prefixed list of a message.
pub trait WireRecord: View + Sized {
    /// The schema bounds under which the record is encodable.
    spec fn inv(v: Self::V) -> bool;

    /// The byte encoding of a record view.
    spec fn spec_enc(v: Self::V) -> Seq<u8>;

    /// Decode one record off the front of the stream.
    spec fn spec_dec(b: Seq<u8>) -> Option<(Self::V, Seq<u8>)>;

    /// Record round trip, with the rest of the stream untouched.
    proof fn lemma_rt(v: Self::V, rest: Seq<u8>)
        requires
            Self::inv(v),
        ensures
            Self::spec_dec(Self::spec_enc(v) + rest) == Some((v, rest)),
    ;

    /// Whether the record satisfies the schema bounds.
    fn check(&self) -> (b: bool)
        ensures
            b == Self::inv(self@),
    ;

    /// Append the record's encoding.
    fn write(&self, out: &mut Vec<u8>)
        requires
            Self::inv(self@),
        ensures
            final(out)@ == old(out)@ + Self::spec_enc(self@),
    ;

    /// Read one record at `pos`, returning it with the next position.
    fn read(buf: &[u8], pos: usize) -> (r: Option<(Self, usize)>)
        requires
            pos <= buf@.len(),
        ensures
            match r {
                Some((x, p2)) => pos <= p2 <= buf@.len() && Self::spec_dec(
                    buf@.skip(pos as int),
                ) == Some((x@, buf@.skip(p2 as int))),
                None => Self::spec_dec(buf@.skip(pos as int)) is None,
            },
    ;
}

/// The element views of a vector, as the specifications see them.
pub open spec fn views_of<T: View>(s: Seq<T>) -> Seq<T::V> {
    s.map_values(|x: T| x@)
}

/// Concatenated encodings of a sequence of record views.
pub open spec fn spec_enc_records<T: WireRecord>(s: Seq<T::V>) -> Seq<u8>
    decreases s.len(),
{
    if s.len() == 0 {
        Seq::empty()
    } else {
        T::spec_enc(s[0]) + spec_enc_records::<T>(s.skip(1))
    }
}

/// Decode exactly `n` records off the front of the stream.
pub open spec fn spec_dec_records<T: WireRecord>(b: Seq<u8>, n: nat) -> Option<
    (Seq<T::V>, Seq<u8>),
>
    decreases n,
{
    if n == 0 {
        Some((Seq::empty(), b))
    } else {
        match T::spec_dec(b) {
            Some((x, r)) => match spec_dec_records::<T>(r, (n - 1) as nat) {
                Some((xs, r2)) => Some((seq![x] + xs, r2)),
                None => None,
            },
            None => None,
        }
    }
}

/// A length-prefixed list: a 16-bit count, then the records.
pub open spec fn spec_enc_list<T: WireRecord>(s: Seq<T::V>) -> Seq<u8>
    recommends
        s.len() <= u16::MAX,
{
    spec_enc_u16(s.len() as u16) + spec_enc_records::<T>(s)
}

/// Decode a length-prefixed list off the front of the stream.
pub open spec fn spec_dec_list<T: WireRecord>(b: Seq<u8>) -> Option<(Seq<T::V>, Seq<u8>)> {
    match spec_dec_u16(b) {
        Some((n, r)) => spec_dec_records::<T>(r, n as nat),
        None => None,
    }
}

/// List round trip over the records alone.
pub proof fn lemma_dec_records_rt<T: WireRecord>(s: Seq<T::V>, rest: Seq<u8>)
    requires
        forall|i: int| 0 <= i < s.len() ==> T::inv(#[trigger] s[i]),
    ensures
        spec_dec_records::<T>(spec_enc_records::<T>(s) + rest, s.len()) == Some((s, rest)),
    decreases s.len(),
{
    if s.len() == 0 {
        assert(spec_enc_records::<T>(s) + rest =~= rest);
    } else {
        let tail = s.skip(1);
        lemma_dec_records_rt::<T>(tail, rest);
        assert(spec_enc_records::<T>(s) + rest =~= T::spec_enc(s[0]) + (spec_enc_records::<T>(tail)
            + rest));
        T::lemma_rt(s[0], spec_enc_records::<T>(tail) + rest);
        assert(seq![s[0]] + tail =~= s);
    }
}

/// Full list round trip, count prefix included.
pub proof fn lemma_dec_list_rt<T: WireRecord>(s: Seq<T::V>, rest: Seq<u8>)
    requires
        s.len() <= u16::MAX,
        forall|i: int| 0 <= i < s.len() ==> T::inv(#[trigger] s[i]),
    ensures
        spec_dec_list::<T>(spec_enc_list::<T>(s) + rest) == Some((s, rest)),
{
    let body = spec_enc_records::<T>(s) + rest;
    assert(spec_enc_list::<T>(s) + rest =~= spec_enc_u16(s.len() as u16) + body);
    crate::wire::lemma_dec_u16_rt(s.len() as u16, body);
    lemma_dec_records_rt::<T>(s, rest);
}

/// Whether every record of a vector satisfies the schema bounds.
pub fn check_records<T: WireRecord>(s: &Vec<T>) -> (b: bool)
    ensures
        b == (forall|i: int| 0 <= i < s@.len() ==> T::inv(#[trigger] views_of(s@)[i])),
{
    let mut i: usize = 0;
    while i < s.len()
        invariant
            i <= s@.len(),
            forall|j: int| 0 <= j < i ==> T::inv(#[trigger] views_of(s@)[j]),
        decreases s@.len() - i,
    {
        if !s[i].check() {
            assert(views_of(s@)[i as int] == s@[i as int]@);
            return false;
        }
        assert(views_of(s@)[i as int] == s@[i as int]@);
        i = i + 1;
    }
    true
}

/// Append a length-prefixed list of records.
pub fn write_list<T: WireRecord>(out: &mut Vec<u8>, s: &Vec<T>)
    requires
        s@.len() <= u16::MAX,
        forall|i: int| 0 <= i < s@.len() ==> T::inv(#[trigger] views_of(s@)[i]),
    ensures
        final(out)@ == old(out)@ + spec_enc_list::<T>(views_of(s@)),
{
    push_u16(out, s.len() as u16);
    let ghost all = views_of(s@);
    let ghost base = out@;
    let mut i: usize = 0;
    proof {
        assert(all.skip(0) =~= all);
    }
    while i < s.len()
        invariant
            i <= s@.len(),
            all == views_of(s@),
            forall|j: int| 0 <= j < s@.len() ==> T::inv(#[trigger] all[j]),
            out@ + spec_enc_records::<T>(all.skip(i as int)) == base + spec_enc_records::<T>(all),
        decreases s@.len() - i,
    {
        let ghost out0 = out@;
        let ghost rem = all.skip(i as int);
        assert(rem[0] == all[i as int] && all[i as int] == s@[i as int]@);
        s[i].write(out);
        proof {
            assert(rem.skip(1) =~= all.skip(i as int + 1));
            assert(out@ + spec_enc_records::<T>(all.skip(i as int + 1)) =~= out0 + (T::spec_enc(
                rem[0],
            ) + spec_enc_records::<T>(rem.skip(1))));
        }
        i = i + 1;
    }
    proof {
        assert(all.skip(s@.len() as int).len() == 0);
        assert(out@ + spec_enc_records::<T>(all.skip(s@.len() as int)) =~= out@);
        assert(out@ =~= old(out)@ + spec_enc_list::<T>(all));
    }
}

/// Read a length-prefixed list of records at `pos`.
pub fn read_list<T: WireRecord>(buf: &[u8], pos: usize) -> (r: Option<(Vec<T>, usize)>)
    requires
        pos <= buf@.len(),
    ensures
        match r {
            Some((v, p2)) => pos <= p2 <= buf@.len() && spec_dec_list::<T>(buf@.skip(pos as int))
                == Some((views_of(v@), buf@.skip(p2 as int))),
            None => spec_dec_list::<T>(buf@.skip(pos as int)) is None,
        },
{
    match read_u16(buf, pos) {
        None => None,
        Some((n, p1)) => {
            let mut v: Vec<T> = Vec::new();
            let mut p: usize = p1;
            let mut left: u16 = n;
            proof {
                assert(views_of(v@) =~= Seq::<T::V>::empty());
            }
            loop
                invariant_except_break
                    pos < p1 <= p <= buf@.len(),
                    left <= n,
                    v@.len() == n - left,
                    spec_dec_list::<T>(buf@.skip(pos as int)) == spec_dec_records::<T>(
                        buf@.skip(p1 as int),
                        n as nat,
                    ),
                    spec_dec_records::<T>(buf@.skip(p1 as int), n as nat) == match spec_dec_records::<
                        T,
                    >(buf@.skip(p as int), left as nat) {
                        Some((xs, r2)) => Some((views_of(v@) + xs, r2)),
                        None => None::<(Seq<T::V>, Seq<u8>)>,
                    },
                ensures
                    pos < p <= buf@.len(),
                    spec_dec_records::<T>(buf@.skip(p1 as int), n as nat) == Some(
                        (views_of(v@), buf@.skip(p as int)),
                    ),
                decreases left,
            {
                if left == 0 {
                    proof {
                        assert(views_of(v@) + Seq::<T::V>::empty() =~= views_of(v@));
                    }
                    break;
                }
                let ghost acc0 = views_of(v@);
                match T::read(buf, p) {
                    None => {
                        return None;
                    },
                    Some((x, p2)) => {
                        v.push(x);
                        proof {
                            assert(views_of(v@) =~= acc0.push(x@));
                            match spec_dec_records::<T>(buf@.skip(p2 as int), (left - 1) as nat) {
                                Some((xs, r2)) => {
                                    assert(acc0 + (seq![x@] + xs) =~= views_of(v@) + xs);
                                },
                                None => {},
                            }
                        }
                        p = p2;
                        left = left - 1;
                    },
                }
            }
            Some((v, p))
        },
    }
}

} // verus!
