//! 256-bit unsigned integers.
//!
//! A [`U256`] holds its value as four 64-bit limbs, and its view is the
//! natural number they stand for. Comparisons and constructors are verified
//! here; the checked arithmetic is done by `ethereum_types::U256`.

use vstd::arithmetic::power2::lemma2_to64;
use vstd::arithmetic::power2::lemma_pow2_adds;
use vstd::arithmetic::power2::pow2;
use vstd::bits::lemma_u64_pow2_no_overflow;
use vstd::bits::lemma_u64_shl_is_mul;
use vstd::prelude::*;

verus! {

/// The weight of limb 1: `2^64`.
pub open spec fn radix1() -> int {
    0x1_0000_0000_0000_0000int
}

/// The weight of limb 2: `2^128`.
pub open spec fn radix2() -> int {
    0x1_0000_0000_0000_0000_0000_0000_0000_0000int
}

/// The weight of limb 3: `2^192`.
pub open spec fn radix3() -> int {
    0x1_0000_0000_0000_0000_0000_0000_0000_0000_0000_0000_0000_0000int
}

/// One more than the largest value a `U256` holds: `2^256`.
pub open spec fn modulus() -> int {
    0x1_0000_0000_0000_0000_0000_0000_0000_0000_0000_0000_0000_0000_0000_0000_0000_0000int
}

/// The number that four limbs stand for, least significant limb first.
pub open spec fn limbs_value(w0: u64, w1: u64, w2: u64, w3: u64) -> nat {
    (w0 + w1 * radix1() + w2 * radix2() + w3 * radix3()) as nat
}

/// An unsigned integer below `2^256`, held as four 64-bit limbs, least
/// significant first.
#[derive(Clone, Copy, Debug, PartialEq, Eq, Hash, Structural)]
pub struct U256 {
    pub w0: u64,
    pub w1: u64,
    pub w2: u64,
    pub w3: u64,
}

/// An amount in Wei, the smallest denomination of the ledger's value.
pub type Wei = U256;

impl View for U256 {
    type V = nat;

    open spec fn view(&self) -> nat {
        limbs_value(self.w0, self.w1, self.w2, self.w3)
    }
}

/// Two pairs of limbs that stand for the same number are the same pair.
proof fn lemma_pair_canonical(a0: u64, a1: u64, b0: u64, b1: u64)
    requires
        a0 + a1 * radix1() == b0 + b1 * radix1(),
    ensures
        a0 == b0,
        a1 == b1,
{
    if a1 < b1 {
        assert(a1 * radix1() + radix1() <= b1 * radix1());
    } else if b1 < a1 {
        assert(b1 * radix1() + radix1() <= a1 * radix1());
    }
}

/// Every `U256` is below `2^256`, and two of them with the same value are the
/// same limbs.
pub proof fn lemma_value_canonical(a: U256, b: U256)
    ensures
        a@ < modulus(),
        a@ == b@ <==> a == b,
{
    let la = a.w0 + a.w1 * radix1();
    let ha = a.w2 + a.w3 * radix1();
    let lb = b.w0 + b.w1 * radix1();
    let hb = b.w2 + b.w3 * radix1();
    assert(0 <= la < radix2());
    assert(0 <= lb < radix2());
    assert(0 <= ha < radix2());
    assert(0 <= hb < radix2());
    assert(a.w3 * radix3() == (a.w3 * radix1()) * radix2());
    assert(b.w3 * radix3() == (b.w3 * radix1()) * radix2());
    assert(a@ == la + ha * radix2());
    assert(b@ == lb + hb * radix2());
    assert(ha * radix2() <= (radix2() - 1) * radix2());
    if a@ == b@ {
        if ha < hb {
            assert(ha * radix2() + radix2() <= hb * radix2());
        } else if hb < ha {
            assert(hb * radix2() + radix2() <= ha * radix2());
        }
        assert(ha == hb);
        assert(la == lb);
        lemma_pair_canonical(a.w0, a.w1, b.w0, b.w1);
        lemma_pair_canonical(a.w2, a.w3, b.w2, b.w3);
    }
}

/// The limb weights and the modulus as powers of two.
pub proof fn lemma_radix_pow2()
    ensures
        pow2(64) == radix1(),
        pow2(128) == radix2(),
        pow2(192) == radix3(),
        pow2(256) == modulus(),
{
    lemma2_to64();
    lemma_pow2_adds(64, 64);
    lemma_pow2_adds(128, 64);
    lemma_pow2_adds(192, 64);
    assert(radix1() * radix1() == radix2());
    assert(radix2() * radix1() == radix3());
    assert(radix3() * radix1() == modulus());
}

/// Calls `ethereum_types::U256::checked_add` on the two numbers, limb for
/// limb. The sum is returned when it is below `2^256`, and `None` otherwise.
#[verifier::external_body]
fn ext_checked_add(a: &U256, b: &U256) -> (r: Option<U256>)
    ensures
        r is Some <==> a@ + b@ < modulus(),
        r matches Some(s) ==> s@ == a@ + b@,
{
    ethereum_types::U256([a.w0, a.w1, a.w2, a.w3])
        .checked_add(ethereum_types::U256([b.w0, b.w1, b.w2, b.w3]))
        .map(|s| U256 { w0: s.0[0], w1: s.0[1], w2: s.0[2], w3: s.0[3] })
}

/// Calls `ethereum_types::U256::checked_sub` on the two numbers, limb for
/// limb. The difference is returned when `b` is at most `a`, and `None`
/// otherwise.
#[verifier::external_body]
fn ext_checked_sub(a: &U256, b: &U256) -> (r: Option<U256>)
    ensures
        r is Some <==> b@ <= a@,
        r matches Some(d) ==> d@ == a@ - b@,
{
    ethereum_types::U256([a.w0, a.w1, a.w2, a.w3])
        .checked_sub(ethereum_types::U256([b.w0, b.w1, b.w2, b.w3]))
        .map(|d| U256 { w0: d.0[0], w1: d.0[1], w2: d.0[2], w3: d.0[3] })
}

/// Calls `ethereum_types::U256::checked_mul` on the two numbers, limb for
/// limb. The product is returned when it is below `2^256`, and `None`
/// otherwise.
#[verifier::external_body]
fn ext_checked_mul(a: &U256, b: &U256) -> (r: Option<U256>)
    ensures
        r is Some <==> a@ * b@ < modulus(),
        r matches Some(p) ==> p@ == a@ * b@,
{
    ethereum_types::U256([a.w0, a.w1, a.w2, a.w3])
        .checked_mul(ethereum_types::U256([b.w0, b.w1, b.w2, b.w3]))
        .map(|p| U256 { w0: p.0[0], w1: p.0[1], w2: p.0[2], w3: p.0[3] })
}

/// Calls `ethereum_types::U256::checked_div` on the two numbers, limb for
/// limb. The quotient, rounded down, is returned when `b` is not zero, and
/// `None` when it is.
#[verifier::external_body]
fn ext_checked_div(a: &U256, b: &U256) -> (r: Option<U256>)
    ensures
        r is Some <==> b@ != 0,
        r matches Some(q) ==> q@ == a@ / b@,
{
    ethereum_types::U256([a.w0, a.w1, a.w2, a.w3])
        .checked_div(ethereum_types::U256([b.w0, b.w1, b.w2, b.w3]))
        .map(|q| U256 { w0: q.0[0], w1: q.0[1], w2: q.0[2], w3: q.0[3] })
}

impl U256 {
    /// The number zero.
    pub fn zero() -> (r: U256)
        ensures
            r@ == 0,
    {
        U256 { w0: 0, w1: 0, w2: 0, w3: 0 }
    }

    /// The number one.
    pub fn one() -> (r: U256)
        ensures
            r@ == 1,
    {
        U256 { w0: 1, w1: 0, w2: 0, w3: 0 }
    }

    /// The largest value: `2^256 - 1`.
    pub fn max_value() -> (r: U256)
        ensures
            r@ == modulus() - 1,
    {
        U256 {
            w0: 0xffff_ffff_ffff_ffff,
            w1: 0xffff_ffff_ffff_ffff,
            w2: 0xffff_ffff_ffff_ffff,
            w3: 0xffff_ffff_ffff_ffff,
        }
    }

    /// The number with the given limbs, least significant first.
    pub fn from_limbs(w0: u64, w1: u64, w2: u64, w3: u64) -> (r: U256)
        ensures
            r@ == limbs_value(w0, w1, w2, w3),
            r == (U256 { w0, w1, w2, w3 }),
    {
        U256 { w0, w1, w2, w3 }
    }

    /// The number `v`.
    pub fn from_u64(v: u64) -> (r: U256)
        ensures
            r@ == v,
    {
        U256 { w0: v, w1: 0, w2: 0, w3: 0 }
    }

    /// The number `v`.
    pub fn from_u128(v: u128) -> (r: U256)
        ensures
            r@ == v,
    {
        let lo: u64 = (v & 0xffff_ffff_ffff_ffff) as u64;
        let hi: u64 = (v >> 64) as u64;
        assert(v == (v & 0xffff_ffff_ffff_ffff) + (v >> 64) * 0x1_0000_0000_0000_0000) by (bit_vector);
        assert((v & 0xffff_ffff_ffff_ffff) <= 0xffff_ffff_ffff_ffff) by (bit_vector);
        assert((v >> 64) <= 0xffff_ffff_ffff_ffff) by (bit_vector);
        U256 { w0: lo, w1: hi, w2: 0, w3: 0 }
    }

    /// Two to the power `e`.
    pub fn pow2(e: u64) -> (r: U256)
        requires
            e < 256,
        ensures
            r@ == pow2(e as nat),
    {
        let shift: u64 = e % 64;
        let limb: u64 = 1u64 << shift;
        proof {
            lemma_u64_pow2_no_overflow(shift as nat);
            lemma_u64_shl_is_mul(1, shift);
            lemma_radix_pow2();
            lemma_pow2_adds(shift as nat, 64);
            lemma_pow2_adds(shift as nat, 128);
            lemma_pow2_adds(shift as nat, 192);
        }
        if e < 64 {
            U256 { w0: limb, w1: 0, w2: 0, w3: 0 }
        } else if e < 128 {
            U256 { w0: 0, w1: limb, w2: 0, w3: 0 }
        } else if e < 192 {
            U256 { w0: 0, w1: 0, w2: limb, w3: 0 }
        } else {
            U256 { w0: 0, w1: 0, w2: 0, w3: limb }
        }
    }

    /// The value as a `u64`, if it is small enough.
    pub fn to_u64(&self) -> (r: Option<u64>)
        ensures
            r is Some <==> self@ <= u64::MAX,
            r matches Some(v) ==> v == self@,
    {
        if self.w1 == 0 && self.w2 == 0 && self.w3 == 0 {
            Some(self.w0)
        } else {
            None
        }
    }

    /// Whether `self` is the number zero.
    pub fn is_zero(&self) -> (r: bool)
        ensures
            r == (self@ == 0),
    {
        self.w0 == 0 && self.w1 == 0 && self.w2 == 0 && self.w3 == 0
    }

    /// Whether `self` is less than `other`.
    pub fn lt(&self, other: &U256) -> (r: bool)
        ensures
            r == (self@ < other@),
    {
        if self.w3 != other.w3 {
            self.w3 < other.w3
        } else if self.w2 != other.w2 {
            self.w2 < other.w2
        } else if self.w1 != other.w1 {
            self.w1 < other.w1
        } else {
            self.w0 < other.w0
        }
    }

    /// Whether `self` is at most `other`.
    pub fn le(&self, other: &U256) -> (r: bool)
        ensures
            r == (self@ <= other@),
    {
        !other.lt(self)
    }

    /// Whether `self` is greater than `other`.
    pub fn gt(&self, other: &U256) -> (r: bool)
        ensures
            r == (self@ > other@),
    {
        other.lt(self)
    }

    /// Whether `self` is at least `other`.
    pub fn ge(&self, other: &U256) -> (r: bool)
        ensures
            r == (self@ >= other@),
    {
        !self.lt(other)
    }

    /// The sum, or `None` when it does not fit in 256 bits.
    pub fn checked_add(&self, other: &U256) -> (r: Option<U256>)
        ensures
            r is Some <==> self@ + other@ < modulus(),
            r matches Some(s) ==> s@ == self@ + other@,
    {
        ext_checked_add(self, other)
    }

    /// The difference, or `None` when `other` is the larger.
    pub fn checked_sub(&self, other: &U256) -> (r: Option<U256>)
        ensures
            r is Some <==> other@ <= self@,
            r matches Some(d) ==> d@ == self@ - other@,
    {
        ext_checked_sub(self, other)
    }

    /// The product, or `None` when it does not fit in 256 bits.
    pub fn checked_mul(&self, other: &U256) -> (r: Option<U256>)
        ensures
            r is Some <==> self@ * other@ < modulus(),
            r matches Some(p) ==> p@ == self@ * other@,
    {
        ext_checked_mul(self, other)
    }

    /// The quotient rounded down, or `None` when `other` is zero.
    pub fn checked_div(&self, other: &U256) -> (r: Option<U256>)
        ensures
            r is Some <==> other@ != 0,
            r matches Some(q) ==> q@ == self@ / other@,
    {
        ext_checked_div(self, other)
    }
}

impl Default for U256 {
    fn default() -> (r: U256)
        ensures
            r@ == 0,
    {
        U256::zero()
    }
}

impl From<u64> for U256 {
    fn from(v: u64) -> (r: U256) {
        U256::from_u64(v)
    }
}

impl vstd::std_specs::convert::FromSpecImpl<u64> for U256 {
    open spec fn obeys_from_spec() -> bool {
        true
    }

    open spec fn from_spec(v: u64) -> U256 {
        U256 { w0: v, w1: 0, w2: 0, w3: 0 }
    }
}

} // verus!
