//! Decoding of the canonical serialization, and the proof that it is the
//! left inverse of encoding.

use crate::codec::be_bytes;
use crate::codec::lemma_be_bytes_len;
use crate::codec::lemma_pow256_values;
use crate::codec::length_prefix;
use crate::codec::list_item;
use crate::codec::pow256;
use crate::codec::scalar_item;
use crate::codec::str_item;
use crate::uint::U256;
use vstd::prelude::*;

verus! {

/// The number that big-endian bytes stand for.
pub open spec fn be_value(s: Seq<u8>) -> nat
    decreases s.len(),
{
    if s.len() == 0 {
        0
    } else {
        be_value(s.drop_last()) * 256 + s.last() as nat
    }
}

/// Splits the bytes after a length prefix into the payload that the prefix
/// announces and the rest. `short` and `long` are the bases of the prefix's
/// first byte, as in [`length_prefix`].
pub open spec fn split_prefixed(short: int, long: int, bytes: Seq<u8>) -> Option<
    (Seq<u8>, Seq<u8>),
> {
    if bytes.len() == 0 {
        None
    } else if short <= bytes[0] <= short + 55 {
        let len = bytes[0] - short;
        if 1 + len <= bytes.len() {
            Some((bytes.subrange(1, 1 + len), bytes.subrange(1 + len, bytes.len() as int)))
        } else {
            None
        }
    } else if long < bytes[0] <= long + 8 {
        let k = bytes[0] - long;
        if 1 + k <= bytes.len() {
            let len = be_value(bytes.subrange(1, 1 + k));
            if 1 + k + len <= bytes.len() {
                Some(
                    (
                        bytes.subrange(1 + k, 1 + k + len),
                        bytes.subrange(1 + k + len, bytes.len() as int),
                    ),
                )
            } else {
                None
            }
        } else {
            None
        }
    } else {
        None
    }
}

/// Splits bytes that start with an encoded byte string into the string and
/// the rest.
pub open spec fn decode_str(bytes: Seq<u8>) -> Option<(Seq<u8>, Seq<u8>)> {
    if bytes.len() > 0 && bytes[0] < 0x80 {
        Some((bytes.subrange(0, 1), bytes.subrange(1, bytes.len() as int)))
    } else {
        split_prefixed(0x80, 0xb7, bytes)
    }
}

/// Splits bytes that start with an encoded scalar into the scalar and the
/// rest.
pub open spec fn decode_scalar(bytes: Seq<u8>) -> Option<(nat, Seq<u8>)> {
    match decode_str(bytes) {
        Some((s, rest)) => Some((be_value(s), rest)),
        None => None,
    }
}

/// Splits bytes that start with an encoded list into the list's payload and
/// the rest.
pub open spec fn decode_list(bytes: Seq<u8>) -> Option<(Seq<u8>, Seq<u8>)> {
    split_prefixed(0xc0, 0xf7, bytes)
}

/// The big-endian bytes of a number stand for that number, and there is at
/// least one byte unless the number is zero.
pub proof fn lemma_be_round_trip(n: nat)
    ensures
        be_value(be_bytes(n)) == n,
        n > 0 ==> be_bytes(n).len() >= 1,
    decreases n,
{
    if n > 0 {
        lemma_be_round_trip(n / 256);
        assert(be_bytes(n).drop_last() =~= be_bytes(n / 256));
        assert(be_bytes(n).last() == (n % 256) as u8);
    }
}

/// A payload behind its length prefix, followed by anything, splits into the
/// payload and what follows.
pub proof fn lemma_split_prefixed(short: int, long: int, payload: Seq<u8>, rest: Seq<u8>)
    requires
        payload.len() < pow256(8),
        0 <= short,
        long == short + 55,
        long + 8 <= 255,
    ensures
        split_prefixed(short, long, length_prefix(short, long, payload.len()) + payload + rest)
            == Some((payload, rest)),
{
    let len = payload.len() as int;
    let prefix = length_prefix(short, long, payload.len());
    let bytes = prefix + payload + rest;
    if len <= 55 {
        assert(bytes[0] == (short + len) as u8);
        assert(bytes.subrange(1, 1 + len) =~= payload);
        assert(bytes.subrange(1 + len, bytes.len() as int) =~= rest);
    } else {
        lemma_be_round_trip(payload.len());
        lemma_be_bytes_len(payload.len(), 8);
        let k = be_bytes(payload.len()).len() as int;
        assert(bytes[0] == (long + k) as u8);
        assert(bytes.subrange(1, 1 + k) =~= be_bytes(payload.len()));
        assert(bytes.subrange(1 + k, 1 + k + len) =~= payload);
        assert(bytes.subrange(1 + k + len, bytes.len() as int) =~= rest);
    }
}

/// Decoding is the left inverse of encoding a byte string: an encoded
/// string, followed by anything, decodes to the string and what follows.
pub proof fn lemma_decode_str(s: Seq<u8>, rest: Seq<u8>)
    requires
        s.len() < pow256(8),
    ensures
        decode_str(str_item(s) + rest) == Some((s, rest)),
{
    let bytes = str_item(s) + rest;
    if s.len() == 1 && s[0] < 0x80 {
        assert(bytes[0] == s[0]);
        assert(bytes.subrange(0, 1) =~= s);
        assert(bytes.subrange(1, bytes.len() as int) =~= rest);
    } else {
        lemma_split_prefixed(0x80, 0xb7, s, rest);
        lemma_be_bytes_len(s.len(), 8);
        assert(bytes[0] == length_prefix(0x80, 0xb7, s.len())[0]);
        assert(bytes[0] >= 0x80);
    }
}

/// Decoding is the left inverse of encoding a scalar: an encoded scalar
/// below `2^256`, followed by anything, decodes to the scalar and what
/// follows.
pub proof fn lemma_decode_scalar(n: nat, rest: Seq<u8>)
    requires
        n < pow256(32),
    ensures
        decode_scalar(scalar_item(n) + rest) == Some((n, rest)),
{
    lemma_pow256_values();
    lemma_be_bytes_len(n, 32);
    lemma_be_round_trip(n);
    lemma_decode_str(be_bytes(n), rest);
}

/// Decoding is the left inverse of encoding a list: an encoded list,
/// followed by anything, decodes to the list's payload and what follows.
pub proof fn lemma_decode_list(payload: Seq<u8>, rest: Seq<u8>)
    requires
        payload.len() < pow256(8),
    ensures
        decode_list(list_item(payload) + rest) == Some((payload, rest)),
{
    lemma_split_prefixed(0xc0, 0xf7, payload, rest);
}

/// The encoding of byte strings is injective, and no encoded string is the
/// start of another: two encoded strings, each followed by anything, are the
/// same bytes only if the strings are the same and what follows is.
pub proof fn lemma_str_item_injective(a: Seq<u8>, rest_a: Seq<u8>, b: Seq<u8>, rest_b: Seq<u8>)
    requires
        a.len() < pow256(8),
        b.len() < pow256(8),
        str_item(a) + rest_a == str_item(b) + rest_b,
    ensures
        a == b,
        rest_a == rest_b,
{
    lemma_decode_str(a, rest_a);
    lemma_decode_str(b, rest_b);
}

/// The encoding of scalars is injective, and no encoded scalar is the start
/// of another.
pub proof fn lemma_scalar_item_injective(a: nat, rest_a: Seq<u8>, b: nat, rest_b: Seq<u8>)
    requires
        a < pow256(32),
        b < pow256(32),
        scalar_item(a) + rest_a == scalar_item(b) + rest_b,
    ensures
        a == b,
        rest_a == rest_b,
{
    lemma_pow256_values();
    lemma_be_bytes_len(a, 32);
    lemma_be_bytes_len(b, 32);
    lemma_str_item_injective(be_bytes(a), rest_a, be_bytes(b), rest_b);
    lemma_be_round_trip(a);
    lemma_be_round_trip(b);
}

/// The encoding of lists is injective in the payload, and no encoded list is
/// the start of another.
pub proof fn lemma_list_item_injective(a: Seq<u8>, rest_a: Seq<u8>, b: Seq<u8>, rest_b: Seq<u8>)
    requires
        a.len() < pow256(8),
        b.len() < pow256(8),
        list_item(a) + rest_a == list_item(b) + rest_b,
    ensures
        a == b,
        rest_a == rest_b,
{
    lemma_decode_list(a, rest_a);
    lemma_decode_list(b, rest_b);
}

/// An encoded byte string never starts like an encoded list: its first byte
/// is below `0xc0`, that of a list is not.
pub proof fn lemma_str_is_no_list(s: Seq<u8>, payload: Seq<u8>)
    requires
        s.len() < pow256(8),
        payload.len() < pow256(8),
    ensures
        str_item(s).len() > 0,
        list_item(payload).len() > 0,
        str_item(s)[0] < 0xc0,
        list_item(payload)[0] >= 0xc0,
{
    lemma_be_bytes_len(s.len(), 8);
    lemma_be_bytes_len(payload.len(), 8);
    lemma_be_round_trip(s.len());
    lemma_be_round_trip(payload.len());
}

/// The number that big-endian bytes stand for is below `256` to the power
/// of their count.
pub proof fn lemma_be_value_bound(s: Seq<u8>)
    ensures
        be_value(s) < pow256(s.len()),
    decreases s.len(),
{
    if s.len() > 0 {
        lemma_be_value_bound(s.drop_last());
    }
}

/// `256^k` grows with `k`.
pub proof fn lemma_pow256_monotone(i: nat, k: nat)
    requires
        i <= k,
    ensures
        pow256(i) <= pow256(k),
        pow256(i) >= 1,
    decreases k,
{
    if i < k {
        lemma_pow256_monotone(i, (k - 1) as nat);
    } else if i > 0 {
        lemma_pow256_monotone((i - 1) as nat, (i - 1) as nat);
    }
}

/// Where a decoded item lies in the bytes it was read from: its payload is
/// `bytes[start..end]`, and what follows the item is `bytes[end..]`.
#[derive(Clone, Copy, Debug, PartialEq, Eq, Structural)]
pub struct Span {
    /// The index of the first byte of the payload.
    pub start: usize,
    /// The index after the last byte of the payload.
    pub end: usize,
}

impl Span {
    /// Whether the span lies in `bytes` and cuts it into `payload` and
    /// `rest`.
    pub open spec fn cuts(self, bytes: Seq<u8>, payload: Seq<u8>, rest: Seq<u8>) -> bool {
        &&& self.start <= self.end <= bytes.len()
        &&& bytes.subrange(self.start as int, self.end as int) == payload
        &&& bytes.subrange(self.end as int, bytes.len() as int) == rest
    }
}

fn be_value_of(bytes: &[u8], start: usize, count: usize) -> (value: u64)
    requires
        count <= 8,
        start + count <= bytes@.len(),
    ensures
        value == be_value(bytes@.subrange(start as int, start + count)),
{
    let total: usize = bytes.len();
    let mut value: u64 = 0;
    let mut i: usize = 0;
    while i < count
        invariant
            i <= count <= 8,
            start + count <= total,
            total == bytes@.len(),
            value == be_value(bytes@.subrange(start as int, start + i)),
        decreases count - i,
    {
        proof {
            let before = bytes@.subrange(start as int, start + i);
            let after = bytes@.subrange(start as int, start + i + 1);
            assert(after.drop_last() =~= before);
            assert(after.last() == bytes@[start + i]);
            lemma_be_value_bound(before);
            lemma_be_value_bound(after);
            lemma_pow256_monotone((i + 1) as nat, 8);
            lemma_pow256_values();
        }
        value = value * 256 + bytes[start + i] as u64;
        i += 1;
    }
    value
}

fn split_prefixed_at(short: u8, bytes: &[u8]) -> (r: Option<Span>)
    requires
        short <= 0xc0,
    ensures
        match split_prefixed(short as int, short + 55, bytes@) {
            Some((payload, rest)) => r matches Some(span) && span.cuts(bytes@, payload, rest),
            None => r is None,
        },
{
    if bytes.len() == 0 {
        return None;
    }
    let first = bytes[0];
    if first < short {
        return None;
    }
    let above: u8 = first - short;
    if above <= 55 {
        let len: usize = above as usize;
        if len <= bytes.len() - 1 {
            Some(Span { start: 1, end: 1 + len })
        } else {
            None
        }
    } else if above <= 63 {
        let count: usize = (above - 55) as usize;
        if count <= bytes.len() - 1 {
            let len: u64 = be_value_of(bytes, 1, count);
            let room: usize = bytes.len() - 1 - count;
            if len <= room as u64 {
                Some(Span { start: 1 + count, end: 1 + count + len as usize })
            } else {
                None
            }
        } else {
            None
        }
    } else {
        None
    }
}

/// Reads the encoded byte string that `bytes` starts with.
pub fn split_str(bytes: &[u8]) -> (r: Option<Span>)
    ensures
        match decode_str(bytes@) {
            Some((s, rest)) => r matches Some(span) && span.cuts(bytes@, s, rest),
            None => r is None,
        },
{
    if bytes.len() > 0 && bytes[0] < 0x80 {
        Some(Span { start: 0, end: 1 })
    } else {
        split_prefixed_at(0x80, bytes)
    }
}

/// Reads the encoded list that `bytes` starts with.
pub fn split_list(bytes: &[u8]) -> (r: Option<Span>)
    ensures
        match decode_list(bytes@) {
            Some((payload, rest)) => r matches Some(span) && span.cuts(bytes@, payload, rest),
            None => r is None,
        },
{
    split_prefixed_at(0xc0, bytes)
}

/// Reads the encoded byte string that `bytes` starts with, and returns it
/// with the number of bytes that were read.
pub fn decode_bytes(bytes: &[u8]) -> (r: Option<(Vec<u8>, usize)>)
    ensures
        match decode_str(bytes@) {
            Some((s, rest)) => r matches Some((v, used)) && v@ == s && used + rest.len()
                == bytes@.len(),
            None => r is None,
        },
{
    match split_str(bytes) {
        Some(span) => {
            let mut out: Vec<u8> = Vec::new();
            let mut i: usize = span.start;
            while i < span.end
                invariant
                    span.start <= i <= span.end <= bytes@.len(),
                    out@ == bytes@.subrange(span.start as int, i as int),
                decreases span.end - i,
            {
                out.push(bytes[i]);
                assert(out@ =~= bytes@.subrange(span.start as int, i + 1));
                i += 1;
            }
            Some((out, span.end))
        },
        None => None,
    }
}

/// Reads the encoded scalar that `bytes` starts with, if it is written in
/// at most eight bytes, and returns it with the number of bytes that were
/// read.
pub fn decode_u64(bytes: &[u8]) -> (r: Option<(u64, usize)>)
    ensures
        match decode_str(bytes@) {
            Some((s, rest)) => if s.len() <= 8 {
                r matches Some((v, used)) && v == be_value(s) && used + rest.len() == bytes@.len()
            } else {
                r is None
            },
            None => r is None,
        },
{
    match split_str(bytes) {
        Some(span) => {
            if span.end - span.start <= 8 {
                Some((be_value_of(bytes, span.start, span.end - span.start), span.end))
            } else {
                None
            }
        },
        None => None,
    }
}

/// Reads the encoded scalar that `bytes` starts with, if it is written in
/// at most 32 bytes, and returns it with the number of bytes that were read.
pub fn decode_u256(bytes: &[u8]) -> (r: Option<(U256, usize)>)
    ensures
        match decode_str(bytes@) {
            Some((s, rest)) => if s.len() <= 32 {
                r matches Some((v, used)) && v@ == be_value(s) && used + rest.len() == bytes@.len()
            } else {
                r is None
            },
            None => r is None,
        },
{
    match split_str(bytes) {
        Some(span) => {
            if span.end - span.start > 32 {
                return None;
            }
            let base = U256::from_u64(256);
            let mut value = U256::zero();
            let mut i: usize = span.start;
            assert(bytes@.subrange(span.start as int, span.start as int).len() == 0);
            while i < span.end
                invariant
                    span.start <= i <= span.end <= bytes@.len(),
                    span.end - span.start <= 32,
                    base@ == 256,
                    value@ == be_value(bytes@.subrange(span.start as int, i as int)),
                decreases span.end - i,
            {
                proof {
                    let before = bytes@.subrange(span.start as int, i as int);
                    let after = bytes@.subrange(span.start as int, i + 1);
                    assert(after.drop_last() =~= before);
                    assert(after.last() == bytes@[i as int]);
                    lemma_be_value_bound(after);
                    lemma_pow256_monotone(after.len(), 32);
                    lemma_pow256_values();
                }
                let shifted = value.checked_mul(&base).unwrap();
                value = shifted.checked_add(&U256::from_u64(bytes[i] as u64)).unwrap();
                i += 1;
            }
            Some((value, span.end))
        },
        None => None,
    }
}

} // verus!
