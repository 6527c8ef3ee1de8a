//! Fixed-width byte values (hashes, addresses, bloom filters) and the
//! Keccak-256 digest.

use vstd::prelude::*;
use vstd::std_specs::cmp::PartialEqSpecImpl;

verus! {

/// The Keccak-256 digest of a byte string, as `tiny_keccak::keccak256`
/// computes it.
pub uninterp spec fn keccak256_digest(data: Seq<u8>) -> Seq<u8>;

/// Calls `tiny_keccak::keccak256`. The 32 bytes returned are the Keccak-256
/// digest of `data`, which depends on the bytes of `data` alone.
#[verifier::external_body]
fn ext_keccak256(data: &[u8]) -> (out: [u8; 32])
    ensures
        out@ == keccak256_digest(data@),
{
    tiny_keccak::keccak256(data)
}

/// Calls `ethereum_types::Address::random`, which draws 20 bytes from the
/// operating system's random source, and panics where the system offers
/// none. Nothing is known of the bytes.
#[verifier::external_body]
fn ext_random_address() -> (out: [u8; 20]) {
    ethereum_types::Address::random().0
}

/// The byte string made of `n` zero bytes.
pub open spec fn zeros(n: nat) -> Seq<u8> {
    Seq::new(n, |i: int| 0u8)
}

/// Whether two byte strings hold the same bytes.
pub fn bytes_eq(a: &[u8], b: &[u8]) -> (r: bool)
    ensures
        r == (a@ == b@),
{
    if a.len() != b.len() {
        return false;
    }
    let mut i: usize = 0;
    while i < a.len()
        invariant
            i <= a.len(),
            a.len() == b.len(),
            forall|j: int| 0 <= j < i ==> a@[j] == b@[j],
        decreases a.len() - i,
    {
        if a[i] != b[i] {
            return false;
        }
        i += 1;
    }
    assert(a@ =~= b@);
    true
}

/// A 256-bit hash.
#[derive(Clone, Copy, Debug, Eq, Hash)]
pub struct H256 {
    pub bytes: [u8; 32],
}

impl View for H256 {
    type V = Seq<u8>;

    open spec fn view(&self) -> Seq<u8> {
        self.bytes@
    }
}

impl PartialEq for H256 {
    fn eq(&self, other: &H256) -> (r: bool) {
        let r = bytes_eq(self.bytes.as_slice(), other.bytes.as_slice());
        proof {
            lemma_h256_eq(*self, *other);
        }
        r
    }
}

impl PartialEqSpecImpl for H256 {
    open spec fn obeys_eq_spec() -> bool {
        true
    }

    open spec fn eq_spec(&self, other: &H256) -> bool {
        *self == *other
    }
}

/// Two hashes are the same value exactly when they hold the same bytes.
pub proof fn lemma_h256_eq(a: H256, b: H256)
    ensures
        a@.len() == 32,
        a == b <==> a@ == b@,
{
    if a@ == b@ {
        assert(a.bytes =~= b.bytes);
    }
}

impl H256 {
    /// The hash whose 32 bytes are all zero.
    pub fn zero() -> (r: H256)
        ensures
            r@ == zeros(32),
    {
        let r = H256 { bytes: [0u8; 32] };
        assert(r@ =~= zeros(32));
        r
    }

    /// Whether all 32 bytes are zero.
    pub fn is_zero(&self) -> (r: bool)
        ensures
            r == (self@ == zeros(32)),
    {
        let z = H256::zero();
        let r = *self == z;
        proof {
            lemma_h256_eq(*self, z);
        }
        r
    }

    /// The hash made of the given bytes.
    pub fn from_bytes(bytes: [u8; 32]) -> (r: H256)
        ensures
            r@ == bytes@,
    {
        H256 { bytes }
    }
}

impl Default for H256 {
    fn default() -> (r: H256)
        ensures
            r@ == zeros(32),
    {
        H256::zero()
    }
}

/// A 160-bit account address.
#[derive(Clone, Copy, Debug, Eq, Hash)]
pub struct Address {
    pub bytes: [u8; 20],
}

impl View for Address {
    type V = Seq<u8>;

    open spec fn view(&self) -> Seq<u8> {
        self.bytes@
    }
}

impl PartialEq for Address {
    fn eq(&self, other: &Address) -> (r: bool) {
        let r = bytes_eq(self.bytes.as_slice(), other.bytes.as_slice());
        proof {
            lemma_address_eq(*self, *other);
        }
        r
    }
}

impl PartialEqSpecImpl for Address {
    open spec fn obeys_eq_spec() -> bool {
        true
    }

    open spec fn eq_spec(&self, other: &Address) -> bool {
        *self == *other
    }
}

/// Two addresses are the same value exactly when they hold the same bytes.
pub proof fn lemma_address_eq(a: Address, b: Address)
    ensures
        a@.len() == 20,
        a == b <==> a@ == b@,
{
    if a@ == b@ {
        assert(a.bytes =~= b.bytes);
    }
}

impl Address {
    /// The address whose 20 bytes are all zero.
    pub fn zero() -> (r: Address)
        ensures
            r@ == zeros(20),
    {
        let r = Address { bytes: [0u8; 20] };
        assert(r@ =~= zeros(20));
        r
    }

    /// The address made of the given bytes.
    pub fn from_bytes(bytes: [u8; 20]) -> (r: Address)
        ensures
            r@ == bytes@,
    {
        Address { bytes }
    }

    /// An address drawn from the operating system's random source. A system
    /// without such a source makes the call panic.
    pub fn random() -> (r: Address) {
        Address { bytes: ext_random_address() }
    }
}

impl Default for Address {
    fn default() -> (r: Address)
        ensures
            r@ == zeros(20),
    {
        Address::zero()
    }
}

/// A 2048-bit bloom filter over log entries.
#[derive(Clone, Copy, Debug, Eq, Hash)]
pub struct Bloom {
    pub bytes: [u8; 256],
}

impl View for Bloom {
    type V = Seq<u8>;

    open spec fn view(&self) -> Seq<u8> {
        self.bytes@
    }
}

impl PartialEq for Bloom {
    fn eq(&self, other: &Bloom) -> (r: bool) {
        let r = bytes_eq(self.bytes.as_slice(), other.bytes.as_slice());
        proof {
            lemma_bloom_eq(*self, *other);
        }
        r
    }
}

impl PartialEqSpecImpl for Bloom {
    open spec fn obeys_eq_spec() -> bool {
        true
    }

    open spec fn eq_spec(&self, other: &Bloom) -> bool {
        *self == *other
    }
}

/// Two bloom filters are the same value exactly when they hold the same
/// bytes.
pub proof fn lemma_bloom_eq(a: Bloom, b: Bloom)
    ensures
        a@.len() == 256,
        a == b <==> a@ == b@,
{
    if a@ == b@ {
        assert(a.bytes =~= b.bytes);
    }
}

impl Bloom {
    /// The filter with no bit set.
    pub fn zero() -> (r: Bloom)
        ensures
            r@ == zeros(256),
    {
        let r = Bloom { bytes: [0u8; 256] };
        assert(r@ =~= zeros(256));
        r
    }
}

impl Default for Bloom {
    fn default() -> (r: Bloom)
        ensures
            r@ == zeros(256),
    {
        Bloom::zero()
    }
}

/// The Keccak-256 digest of `data`.
pub fn keccak256(data: &[u8]) -> (h: H256)
    ensures
        h@ == keccak256_digest(data@),
{
    H256 { bytes: ext_keccak256(data) }
}

} // verus!
