//! Wire encoding of message values.
//!
//! Every message travels as one self-terminating binary record: eight
//! little-endian bytes for a `u64`, one byte for a `bool`, a little-endian
//! `u64` byte length followed by UTF-8 bytes for a string, and the two
//! component records in sequence for a pair.  The leaf records are produced
//! and consumed by bincode; the record layout is stated here exactly, so a
//! receiver can recover each record's length from its contents alone.

use vstd::prelude::*;
use vstd::slice::slice_subrange;
use vstd::utf8::{decode_utf8, encode_utf8, encode_utf8_decode_utf8, encode_utf8_valid_utf8,
    valid_utf8};

verus! {

/// The eight little-endian bytes of `v`.
pub open spec fn u64_le_bytes(v: u64) -> Seq<u8> {
    seq![
        (v & 0xff) as u8,
        ((v >> 8) & 0xff) as u8,
        ((v >> 16) & 0xff) as u8,
        ((v >> 24) & 0xff) as u8,
        ((v >> 32) & 0xff) as u8,
        ((v >> 40) & 0xff) as u8,
        ((v >> 48) & 0xff) as u8,
        ((v >> 56) & 0xff) as u8,
    ]
}

/// The value of eight little-endian bytes.
pub open spec fn u64_from_le(b: Seq<u8>) -> u64
    recommends
        b.len() == 8,
{
    ((b[0] as u64) | ((b[1] as u64) << 8) | ((b[2] as u64) << 16) | ((b[3] as u64) << 24)
        | ((b[4] as u64) << 32) | ((b[5] as u64) << 40) | ((b[6] as u64) << 48) | ((b[7] as u64)
        << 56)) as u64
}

/// Decoding a `u64` record: any eight leading bytes, little-endian.
pub open spec fn dec_u64(b: Seq<u8>) -> Option<(u64, int)> {
    if b.len() >= 8 {
        Some((u64_from_le(b.take(8)), 8int))
    } else {
        None
    }
}

/// The one-byte record of a `bool`.
pub open spec fn enc_bool(v: bool) -> Seq<u8> {
    seq![if v { 1u8 } else { 0u8 }]
}

/// Decoding a `bool` record: one leading byte, `1` is true, `0` is false,
/// anything else is malformed.
pub open spec fn dec_bool(b: Seq<u8>) -> Option<(bool, int)> {
    if b.len() < 1 {
        None
    } else if b[0] == 0 {
        Some((false, 1int))
    } else if b[0] == 1 {
        Some((true, 1int))
    } else {
        None
    }
}

/// The record of a string: its UTF-8 byte length as a little-endian `u64`,
/// then its UTF-8 bytes.
pub open spec fn enc_str(s: Seq<char>) -> Seq<u8> {
    u64_le_bytes(encode_utf8(s).len() as u64) + encode_utf8(s)
}

/// Decoding a string record: read the length, take that many bytes, which
/// must be valid UTF-8.
pub open spec fn dec_str(b: Seq<u8>) -> Option<(Seq<char>, int)> {
    if b.len() < 8 {
        None
    } else {
        let l = u64_from_le(b.take(8)) as int;
        if b.len() < 8 + l {
            None
        } else {
            let payload = b.subrange(8, 8 + l);
            if valid_utf8(payload) {
                Some((decode_utf8(payload), 8 + l))
            } else {
                None
            }
        }
    }
}

/// Reading back the eight little-endian bytes of `v` yields `v`.
pub proof fn lemma_u64_le_round_trip(v: u64)
    ensures
        u64_from_le(u64_le_bytes(v)) == v,
{
    let b = u64_le_bytes(v);
    assert(b[0] == (v & 0xff) as u8);
    assert(b[1] == ((v >> 8) & 0xff) as u8);
    assert(b[2] == ((v >> 16) & 0xff) as u8);
    assert(b[3] == ((v >> 24) & 0xff) as u8);
    assert(b[4] == ((v >> 32) & 0xff) as u8);
    assert(b[5] == ((v >> 40) & 0xff) as u8);
    assert(b[6] == ((v >> 48) & 0xff) as u8);
    assert(b[7] == ((v >> 56) & 0xff) as u8);
    assert((((v & 0xff) as u8 as u64) | (((v >> 8) & 0xff) as u8 as u64) << 8 | (((v >> 16)
        & 0xff) as u8 as u64) << 16 | (((v >> 24) & 0xff) as u8 as u64) << 24 | (((v >> 32)
        & 0xff) as u8 as u64) << 32 | (((v >> 40) & 0xff) as u8 as u64) << 40 | (((v >> 48)
        & 0xff) as u8 as u64) << 48 | (((v >> 56) & 0xff) as u8 as u64) << 56) == v)
        by (bit_vector);
}

/// A value that can travel over a wire channel.
///
/// `Model` is the mathematical value of a message; `enc_of` and `dec_of`
/// state its record layout, and every implementation proves that decoding
/// inverts encoding whatever bytes follow the record.
pub trait Wire: Sized {
    /// Mathematical value of a message.
    type Model;

    /// The model of this value.
    spec fn model(&self) -> Self::Model;

    /// The record encoding a model value.
    spec fn enc_of(m: Self::Model) -> Seq<u8>;

    /// The leading record of a byte sequence: its model and its length.
    spec fn dec_of(b: Seq<u8>) -> Option<(Self::Model, int)>;

    /// A decoded record is non-empty and lies within the bytes it was read
    /// from.
    proof fn lemma_dec_len(b: Seq<u8>)
        ensures
            Self::dec_of(b) matches Some((m, n)) ==> 0 < n <= b.len(),
    ;

    /// Round trip: bytes that start with the encoding of `m` decode to `m`
    /// and consume exactly that encoding.
    proof fn lemma_round_trip(m: Self::Model, rest: Seq<u8>)
        requires
            Self::enc_of(m).len() + rest.len() <= usize::MAX,
        ensures
            Self::dec_of(Self::enc_of(m) + rest) == Some((m, Self::enc_of(m).len() as int)),
    ;

    /// Appends this value's record to `out`.
    fn encode(&self, out: &mut Vec<u8>)
        ensures
            final(out)@ == old(out)@ + Self::enc_of(self.model()),
    ;

    /// Reads the leading record of `b`, returning the value and the record
    /// length.
    fn decode(b: &[u8]) -> (r: Option<(Self, usize)>)
        ensures
            (match Self::dec_of(b@) {
                Some((m, n)) => r matches Some((w, k)) && w.model() == m && k as int == n,
                None => r is None,
            }),
    ;
}

/// Relies on bincode::serialize::<u64>: fixed-width little-endian
/// encoding, eight bytes.
#[verifier::external_body]
fn bc_encode_u64(v: u64) -> (r: Vec<u8>)
    ensures
        r@ == u64_le_bytes(v),
{
    bincode::serialize(&v).unwrap()
}

/// Relies on bincode::deserialize_from::<_, u64>: reads exactly eight
/// little-endian bytes, and fails when fewer are available.
#[verifier::external_body]
fn bc_decode_u64(b: &[u8]) -> (r: Option<(u64, usize)>)
    ensures
        (match dec_u64(b@) {
            Some((m, n)) => r matches Some((w, k)) && w == m && k as int == n,
            None => r is None,
        }),
{
    let mut reader: &[u8] = b;
    match bincode::deserialize_from::<_, u64>(&mut reader) {
        Ok(v) => Some((v, b.len() - reader.len())),
        Err(_) => None,
    }
}

/// Relies on bincode::serialize::<bool>: one byte, `1` for true and `0`
/// for false.
#[verifier::external_body]
fn bc_encode_bool(v: bool) -> (r: Vec<u8>)
    ensures
        r@ == enc_bool(v),
{
    bincode::serialize(&v).unwrap()
}

/// Relies on bincode::deserialize_from::<_, bool>: reads one byte, accepts
/// only `0` and `1`, and fails on an empty input.
#[verifier::external_body]
fn bc_decode_bool(b: &[u8]) -> (r: Option<(bool, usize)>)
    ensures
        (match dec_bool(b@) {
            Some((m, n)) => r matches Some((w, k)) && w == m && k as int == n,
            None => r is None,
        }),
{
    let mut reader: &[u8] = b;
    match bincode::deserialize_from::<_, bool>(&mut reader) {
        Ok(v) => Some((v, b.len() - reader.len())),
        Err(_) => None,
    }
}

/// Relies on bincode::serialize::<&str>: a little-endian `u64` byte length
/// followed by the string's UTF-8 bytes.
#[verifier::external_body]
fn bc_encode_str(s: &str) -> (r: Vec<u8>)
    ensures
        r@ == enc_str(s@),
{
    bincode::serialize(s).unwrap()
}

/// Relies on bincode::deserialize_from::<_, String>: reads a little-endian
/// `u64` length and then that many bytes, which must be valid UTF-8; fails
/// when the input is shorter or the bytes are not UTF-8.
#[verifier::external_body]
fn bc_decode_string(b: &[u8]) -> (r: Option<(String, usize)>)
    ensures
        (match dec_str(b@) {
            Some((m, n)) => r matches Some((w, k)) && w@ == m && k as int == n,
            None => r is None,
        }),
{
    let mut reader: &[u8] = b;
    match bincode::deserialize_from::<_, String>(&mut reader) {
        Ok(v) => Some((v, b.len() - reader.len())),
        Err(_) => None,
    }
}

impl Wire for u64 {
    type Model = u64;

    open spec fn model(&self) -> u64 {
        *self
    }

    open spec fn enc_of(m: u64) -> Seq<u8> {
        u64_le_bytes(m)
    }

    open spec fn dec_of(b: Seq<u8>) -> Option<(u64, int)> {
        dec_u64(b)
    }

    proof fn lemma_dec_len(b: Seq<u8>) {
    }

    proof fn lemma_round_trip(m: u64, rest: Seq<u8>) {
        let b = u64_le_bytes(m) + rest;
        assert(b.take(8) =~= u64_le_bytes(m));
        lemma_u64_le_round_trip(m);
    }

    fn encode(&self, out: &mut Vec<u8>) {
        let mut bytes = bc_encode_u64(*self);
        out.append(&mut bytes);
    }

    fn decode(b: &[u8]) -> (r: Option<(Self, usize)>) {
        bc_decode_u64(b)
    }
}

impl Wire for bool {
    type Model = bool;

    open spec fn model(&self) -> bool {
        *self
    }

    open spec fn enc_of(m: bool) -> Seq<u8> {
        enc_bool(m)
    }

    open spec fn dec_of(b: Seq<u8>) -> Option<(bool, int)> {
        dec_bool(b)
    }

    proof fn lemma_dec_len(b: Seq<u8>) {
    }

    proof fn lemma_round_trip(m: bool, rest: Seq<u8>) {
        let b = enc_bool(m) + rest;
        assert(b[0] == enc_bool(m)[0]);
    }

    fn encode(&self, out: &mut Vec<u8>) {
        let mut bytes = bc_encode_bool(*self);
        out.append(&mut bytes);
    }

    fn decode(b: &[u8]) -> (r: Option<(Self, usize)>) {
        bc_decode_bool(b)
    }
}

impl Wire for String {
    type Model = Seq<char>;

    open spec fn model(&self) -> Seq<char> {
        self@
    }

    open spec fn enc_of(m: Seq<char>) -> Seq<u8> {
        enc_str(m)
    }

    open spec fn dec_of(b: Seq<u8>) -> Option<(Seq<char>, int)> {
        dec_str(b)
    }

    proof fn lemma_dec_len(b: Seq<u8>) {
    }

    proof fn lemma_round_trip(m: Seq<char>, rest: Seq<u8>) {
        let payload = encode_utf8(m);
        let l = payload.len() as u64;
        let b = enc_str(m) + rest;
        assert(b.take(8) =~= u64_le_bytes(l));
        lemma_u64_le_round_trip(l);
        assert(b.subrange(8, 8 + payload.len() as int) =~= payload);
        encode_utf8_valid_utf8(m);
        encode_utf8_decode_utf8(m);
    }

    fn encode(&self, out: &mut Vec<u8>) {
        let mut bytes = bc_encode_str(self.as_str());
        out.append(&mut bytes);
    }

    fn decode(b: &[u8]) -> (r: Option<(Self, usize)>) {
        bc_decode_string(b)
    }
}

impl<A: Wire, B: Wire> Wire for (A, B) {
    type Model = (A::Model, B::Model);

    open spec fn model(&self) -> Self::Model {
        (self.0.model(), self.1.model())
    }

    open spec fn enc_of(m: Self::Model) -> Seq<u8> {
        A::enc_of(m.0) + B::enc_of(m.1)
    }

    open spec fn dec_of(b: Seq<u8>) -> Option<(Self::Model, int)> {
        match A::dec_of(b) {
            Some((ma, na)) => match B::dec_of(b.skip(na)) {
                Some((mb, nb)) => Some(((ma, mb), na + nb)),
                None => None,
            },
            None => None,
        }
    }

    proof fn lemma_dec_len(b: Seq<u8>) {
        match A::dec_of(b) {
            Some((ma, na)) => {
                A::lemma_dec_len(b);
                match B::dec_of(b.skip(na)) {
                    Some((mb, nb)) => {
                        B::lemma_dec_len(b.skip(na));
                    },
                    None => {},
                }
            },
            None => {},
        }
    }

    proof fn lemma_round_trip(m: Self::Model, rest: Seq<u8>) {
        let ea = A::enc_of(m.0);
        let eb = B::enc_of(m.1);
        let b = (ea + eb) + rest;
        assert(b =~= ea + (eb + rest));
        A::lemma_round_trip(m.0, eb + rest);
        assert(b.skip(ea.len() as int) =~= eb + rest);
        B::lemma_round_trip(m.1, rest);
        assert(m == (m.0, m.1));
    }

    fn encode(&self, out: &mut Vec<u8>) {
        self.0.encode(out);
        self.1.encode(out);
        proof {
            assert(final(out)@ =~= old(out)@ + Self::enc_of(self.model()));
        }
    }

    fn decode(b: &[u8]) -> (r: Option<(Self, usize)>) {
        match A::decode(b) {
            Some((wa, na)) => {
                proof {
                    A::lemma_dec_len(b@);
                }
                let tail = slice_subrange(b, na, b.len());
                match B::decode(tail) {
                    Some((wb, nb)) => {
                        proof {
                            B::lemma_dec_len(b@.skip(na as int));
                        }
                        Some(((wa, wb), na + nb))
                    },
                    None => None,
                }
            },
            None => None,
        }
    }
}

} // verus!
