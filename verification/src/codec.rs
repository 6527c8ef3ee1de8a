//! Canonical serialization: the recursive length prefix encoding of byte
//! strings, unsigned scalars and lists.
//!
//! The spec functions say what the encoding of an item is. The bytes
//! themselves are produced by the `rlp` crate, which frames payloads of up to
//! [`MAX_PAYLOAD`] bytes.

use crate::uint::U256;
use crate::uint::modulus;
use vstd::prelude::*;

verus! {

/// The longest payload, in bytes, that can be framed as one item.
pub const MAX_PAYLOAD: usize = 0xffff_ffff;

/// The big-endian bytes of `n` without leading zero bytes; none for zero.
pub open spec fn be_bytes(n: nat) -> Seq<u8>
    decreases n,
{
    if n == 0 {
        Seq::empty()
    } else {
        be_bytes(n / 256).push((n % 256) as u8)
    }
}

/// The prefix that announces a payload of `len` bytes: one byte `short + len`
/// for up to 55 bytes, else the byte `long + k` followed by the `k`
/// big-endian bytes of `len`.
pub open spec fn length_prefix(short: int, long: int, len: nat) -> Seq<u8> {
    if len <= 55 {
        seq![(short + len) as u8]
    } else {
        seq![(long + be_bytes(len).len()) as u8] + be_bytes(len)
    }
}

/// The encoding of a byte string: a single byte below `0x80` stands for
/// itself, any other string follows its length prefix.
pub open spec fn str_item(s: Seq<u8>) -> Seq<u8> {
    if s.len() == 1 && s[0] < 0x80 {
        s
    } else {
        length_prefix(0x80, 0xb7, s.len()) + s
    }
}

/// The encoding of an unsigned scalar: its minimal big-endian bytes as a byte
/// string, so that zero is the empty string.
pub open spec fn scalar_item(n: nat) -> Seq<u8> {
    str_item(be_bytes(n))
}

/// The encoding of a list whose items, already encoded and concatenated, are
/// `payload`.
pub open spec fn list_item(payload: Seq<u8>) -> Seq<u8> {
    length_prefix(0xc0, 0xf7, payload.len()) + payload
}

/// The encoding of an optional item: the empty list when absent, the list of
/// the one encoded item when present.
pub open spec fn option_item(item: Option<Seq<u8>>) -> Seq<u8> {
    match item {
        None => list_item(Seq::empty()),
        Some(e) => list_item(e),
    }
}

/// The byte strings of `items`, one after the other.
pub open spec fn concat(items: Seq<Seq<u8>>) -> Seq<u8>
    decreases items.len(),
{
    if items.len() == 0 {
        Seq::empty()
    } else {
        items.first() + concat(items.drop_first())
    }
}

/// Appending a byte string to the items appends it to their concatenation.
pub proof fn lemma_concat_push(items: Seq<Seq<u8>>, item: Seq<u8>)
    ensures
        concat(items.push(item)) == concat(items) + item,
    decreases items.len(),
{
    let pushed = items.push(item);
    if items.len() == 0 {
        assert(pushed.drop_first() =~= Seq::<Seq<u8>>::empty());
        assert(concat(pushed.drop_first()) =~= Seq::<u8>::empty());
        assert(concat(pushed) == pushed.first() + concat(pushed.drop_first()));
        assert(concat(pushed) =~= concat(items) + item);
    } else {
        assert(pushed.drop_first() =~= items.drop_first().push(item));
        lemma_concat_push(items.drop_first(), item);
        assert(concat(pushed) == pushed.first() + concat(pushed.drop_first()));
        assert(concat(pushed) =~= concat(items) + item);
    }
}

/// `256^k`.
pub open spec fn pow256(k: nat) -> nat
    decreases k,
{
    if k == 0 {
        1
    } else {
        256 * pow256((k - 1) as nat)
    }
}

/// A number below `256^k` has at most `k` big-endian bytes.
pub proof fn lemma_be_bytes_len(n: nat, k: nat)
    requires
        n < pow256(k),
    ensures
        be_bytes(n).len() <= k,
    decreases k,
{
    if n != 0 {
        assert(k > 0);
        lemma_be_bytes_len(n / 256, (k - 1) as nat);
    }
}

/// The values of `256^k` that bound lengths, 64-bit and 256-bit scalars.
pub proof fn lemma_pow256_values()
    ensures
        pow256(4) == 0x1_0000_0000,
        pow256(8) == 0x1_0000_0000_0000_0000,
        pow256(32) == modulus(),
{
    reveal_with_fuel(pow256, 5);
    assert(pow256(4) == 0x1_0000_0000);
    assert(pow256(8) == 0x1_0000_0000 * pow256(4));
    assert(pow256(16) == pow256(8) * pow256(8)) by {
        assert(pow256(12) == 0x1_0000_0000 * pow256(8));
        assert(pow256(16) == 0x1_0000_0000 * pow256(12));
    }
    assert(pow256(32) == pow256(16) * pow256(16)) by {
        assert(pow256(20) == 0x1_0000_0000 * pow256(16));
        assert(pow256(24) == 0x1_0000_0000 * pow256(20));
        assert(pow256(28) == 0x1_0000_0000 * pow256(24));
        assert(pow256(32) == 0x1_0000_0000 * pow256(28));
    }
}

/// An encoded byte string of up to [`MAX_PAYLOAD`] bytes is at most five
/// bytes longer than the string, and never empty.
pub proof fn lemma_str_item_len(s: Seq<u8>)
    requires
        s.len() <= MAX_PAYLOAD,
    ensures
        1 <= str_item(s).len() <= s.len() + 5,
        s.len() <= 55 ==> str_item(s).len() <= s.len() + 1,
{
    lemma_pow256_values();
    lemma_be_bytes_len(s.len(), 4);
}

/// An encoded list with up to [`MAX_PAYLOAD`] bytes of payload is at most
/// five bytes longer than the payload, and never empty.
pub proof fn lemma_list_item_len(p: Seq<u8>)
    requires
        p.len() <= MAX_PAYLOAD,
    ensures
        1 <= list_item(p).len() <= p.len() + 5,
        p.len() <= 55 ==> list_item(p).len() == p.len() + 1,
{
    lemma_pow256_values();
    lemma_be_bytes_len(p.len(), 4);
}

/// An encoded scalar below `2^256` takes at most 33 bytes, one below `2^64`
/// at most 9.
pub proof fn lemma_scalar_item_len(n: nat)
    requires
        n < modulus(),
    ensures
        1 <= scalar_item(n).len() <= 33,
        n <= u64::MAX ==> scalar_item(n).len() <= 9,
{
    lemma_pow256_values();
    lemma_be_bytes_len(n, 32);
    if n <= u64::MAX {
        lemma_be_bytes_len(n, 8);
    }
}

/// Calls `rlp::encode` on a byte slice. For up to [`MAX_PAYLOAD`] bytes the
/// crate writes the string's length prefix and then the bytes, or the lone
/// byte itself when it is below `0x80`.
#[verifier::external_body]
fn ext_encode_bytes(data: &[u8]) -> (out: Vec<u8>)
    requires
        data@.len() <= MAX_PAYLOAD,
    ensures
        out@ == str_item(data@),
{
    rlp::encode(&data)
}

/// Calls `rlp::encode` on a `u64`. The crate drops the leading zero bytes of
/// the big-endian form and encodes what is left as a byte string.
#[verifier::external_body]
fn ext_encode_u64(v: u64) -> (out: Vec<u8>)
    ensures
        out@ == scalar_item(v as nat),
{
    rlp::encode(&v)
}

/// Calls `rlp::encode` on an `ethereum_types::U256` with the limbs of `v`.
/// The crate drops the leading zero bytes of the big-endian form and encodes
/// what is left as a byte string.
#[verifier::external_body]
fn ext_encode_u256(v: &U256) -> (out: Vec<u8>)
    ensures
        out@ == scalar_item(v@),
{
    rlp::encode(&ethereum_types::U256([v.w0, v.w1, v.w2, v.w3]))
}

/// Opens a list on a fresh `rlp::RlpStream`, appends `payload` to it as raw
/// bytes and takes the stream's output. For up to [`MAX_PAYLOAD`] bytes the
/// crate writes the list's length prefix in front of the payload.
#[verifier::external_body]
fn ext_encode_list(payload: &[u8]) -> (out: Vec<u8>)
    requires
        payload@.len() <= MAX_PAYLOAD,
    ensures
        out@ == list_item(payload@),
{
    let mut stream = rlp::RlpStream::new_list(1);
    stream.append_raw(payload, 1);
    stream.out()
}

/// The bytes of `head` followed by those of `tail`.
pub fn join(head: Vec<u8>, tail: Vec<u8>) -> (out: Vec<u8>)
    ensures
        out@ == head@ + tail@,
{
    let mut out = head;
    let mut tail = tail;
    out.append(&mut tail);
    out
}

/// The encoding of the byte string `data`.
pub fn encode_bytes(data: &[u8]) -> (out: Vec<u8>)
    requires
        data@.len() <= MAX_PAYLOAD,
    ensures
        out@ == str_item(data@),
{
    ext_encode_bytes(data)
}

/// The encoding of the byte string `data`, or `None` when it is longer than
/// [`MAX_PAYLOAD`].
pub fn try_encode_bytes(data: &[u8]) -> (out: Option<Vec<u8>>)
    ensures
        out is Some <==> data@.len() <= MAX_PAYLOAD,
        out matches Some(e) ==> e@ == str_item(data@),
{
    if data.len() <= MAX_PAYLOAD {
        Some(ext_encode_bytes(data))
    } else {
        None
    }
}

/// The encoding of the scalar `v`.
pub fn encode_u64(v: u64) -> (out: Vec<u8>)
    ensures
        out@ == scalar_item(v as nat),
{
    ext_encode_u64(v)
}

/// The encoding of the scalar `v`.
pub fn encode_u256(v: &U256) -> (out: Vec<u8>)
    ensures
        out@ == scalar_item(v@),
{
    ext_encode_u256(v)
}

/// The encoding of the list whose encoded items, concatenated, are `payload`.
pub fn encode_list(payload: &[u8]) -> (out: Vec<u8>)
    requires
        payload@.len() <= MAX_PAYLOAD,
    ensures
        out@ == list_item(payload@),
{
    ext_encode_list(payload)
}

/// The encoding of the list whose encoded items, concatenated, are `payload`,
/// or `None` when the payload is longer than [`MAX_PAYLOAD`].
pub fn try_encode_list(payload: &[u8]) -> (out: Option<Vec<u8>>)
    ensures
        out is Some <==> payload@.len() <= MAX_PAYLOAD,
        out matches Some(e) ==> e@ == list_item(payload@),
{
    if payload.len() <= MAX_PAYLOAD {
        Some(ext_encode_list(payload))
    } else {
        None
    }
}

/// The bytes of an optional byte vector.
pub open spec fn opt_view(data: Option<Vec<u8>>) -> Option<Seq<u8>> {
    match data {
        None => None,
        Some(d) => Some(d@),
    }
}

/// The encoding of an optional byte string: the empty list when absent, the
/// list of the one encoded string when present.
pub open spec fn opt_str_item(data: Option<Seq<u8>>) -> Seq<u8> {
    match data {
        None => option_item(None),
        Some(d) => option_item(Some(str_item(d))),
    }
}

/// Whether an optional byte string can be framed: absent, or short enough
/// that its own encoding is a payload of up to [`MAX_PAYLOAD`] bytes.
pub open spec fn opt_str_fits(data: Option<Seq<u8>>) -> bool {
    match data {
        None => true,
        Some(d) => d.len() <= MAX_PAYLOAD && str_item(d).len() <= MAX_PAYLOAD,
    }
}

/// The encoding of an optional byte string, or `None` when the string is
/// present and too long to be framed.
pub fn try_encode_opt_bytes(data: &Option<Vec<u8>>) -> (out: Option<Vec<u8>>)
    ensures
        out is Some <==> opt_str_fits(opt_view(*data)),
        out matches Some(e) ==> e@ == opt_str_item(opt_view(*data)),
{
    match data {
        None => {
            let empty: Vec<u8> = Vec::new();
            assert(empty@ =~= Seq::<u8>::empty());
            Some(ext_encode_list(empty.as_slice()))
        },
        Some(d) => {
            if d.len() > MAX_PAYLOAD {
                return None;
            }
            let inner = ext_encode_bytes(d.as_slice());
            if inner.len() > MAX_PAYLOAD {
                return None;
            }
            Some(ext_encode_list(inner.as_slice()))
        },
    }
}

/// The encoding of an optional byte string of at most 54 bytes.
pub fn encode_opt_short(data: Option<&[u8]>) -> (out: Vec<u8>)
    requires
        data matches Some(d) ==> d@.len() <= 54,
    ensures
        out@ == opt_str_item(
            match data {
                Some(d) => Some(d@),
                None => None,
            },
        ),
        out@.len() <= 56,
{
    match data {
        None => {
            let empty: Vec<u8> = Vec::new();
            assert(empty@ =~= Seq::<u8>::empty());
            ext_encode_list(empty.as_slice())
        },
        Some(d) => {
            proof {
                lemma_str_item_len(d@);
                lemma_list_item_len(str_item(d@));
            }
            let inner = ext_encode_bytes(d);
            ext_encode_list(inner.as_slice())
        },
    }
}

} // verus!
