//! The state of one account.

use crate::codec::encode_bytes;
use crate::codec::encode_list;
use crate::codec::encode_u256;
use crate::codec::join;
use crate::codec::lemma_scalar_item_len;
use crate::codec::lemma_str_item_len;
use crate::codec::list_item;
use crate::codec::scalar_item;
use crate::codec::str_item;
use crate::hash::keccak256;
use crate::hash::keccak256_digest;
use crate::hash::H256;
use crate::uint::lemma_value_canonical;
use crate::uint::modulus;
use crate::uint::Wei;
use crate::uint::U256;
use vstd::prelude::*;

verus! {

/// The digest of the empty byte string: the code hash of an account without
/// code, and the storage root of an account without storage.
pub open spec fn empty_digest() -> Seq<u8> {
    keccak256_digest(Seq::empty())
}

/// What an account's state holds, as plain values.
pub struct AccountView {
    /// The number of transactions sent from the account.
    pub nonce: nat,
    /// The Wei owned by the account.
    pub balance: nat,
    /// The root hash of the account's storage.
    pub storage_root: Seq<u8>,
    /// The hash of the account's code.
    pub code_hash: Seq<u8>,
}

impl AccountView {
    /// Whether the values are those of an account: scalars below `2^256` and
    /// hashes of 32 bytes.
    pub open spec fn wf(self) -> bool {
        &&& self.nonce < modulus()
        &&& self.balance < modulus()
        &&& self.storage_root.len() == 32
        &&& self.code_hash.len() == 32
    }

    /// Whether the account has code.
    pub open spec fn has_code(self) -> bool {
        self.code_hash != empty_digest()
    }

    /// Whether the account is empty: no code, zero nonce, zero balance.
    pub open spec fn is_empty(self) -> bool {
        self.nonce == 0 && self.balance == 0 && !self.has_code()
    }

    /// A fresh account that owns `balance`.
    pub open spec fn fresh(balance: nat) -> AccountView {
        AccountView {
            nonce: 0,
            balance,
            storage_root: empty_digest(),
            code_hash: empty_digest(),
        }
    }

    /// The concatenated encodings of the four fields, in declaration order.
    pub open spec fn rlp_payload(self) -> Seq<u8> {
        scalar_item(self.nonce) + (scalar_item(self.balance) + (str_item(self.storage_root)
            + str_item(self.code_hash)))
    }

    /// The canonical encoding: the list of the four fields.
    pub open spec fn rlp(self) -> Seq<u8> {
        list_item(self.rlp_payload())
    }
}

/// The state of one account.
#[derive(Clone, Copy, Debug, PartialEq, Eq)]
pub struct AccountState {
    /// The number of transactions sent from this address.
    pub nonce: U256,
    /// The number of Wei owned by this address.
    pub balance: Wei,
    /// The root hash of the account's storage.
    pub storage_root: H256,
    /// The hash of the account's code.
    pub code_hash: H256,
}

impl View for AccountState {
    type V = AccountView;

    open spec fn view(&self) -> AccountView {
        AccountView {
            nonce: self.nonce@,
            balance: self.balance@,
            storage_root: self.storage_root@,
            code_hash: self.code_hash@,
        }
    }
}

impl AccountState {
    /// The values of an account are well-formed.
    pub proof fn lemma_view_wf(&self)
        ensures
            self@.wf(),
    {
        lemma_value_canonical(self.nonce, self.balance);
        lemma_value_canonical(self.balance, self.nonce);
    }

    /// A fresh account that owns `balance`: nonce zero, no code, no storage.
    pub fn new(balance: U256) -> (account: AccountState)
        ensures
            account@ == AccountView::fresh(balance@),
    {
        let empty: Vec<u8> = Vec::new();
        let digest = keccak256(empty.as_slice());
        assert(empty@ =~= Seq::<u8>::empty());
        AccountState { nonce: U256::zero(), balance, storage_root: digest, code_hash: digest }
    }

    /// Whether the account has code: its code hash is not the digest of the
    /// empty byte string.
    pub fn has_code(&self) -> (r: bool)
        ensures
            r == self@.has_code(),
    {
        let empty: Vec<u8> = Vec::new();
        let digest = keccak256(empty.as_slice());
        assert(empty@ =~= Seq::<u8>::empty());
        let same = self.code_hash == digest;
        proof {
            crate::hash::lemma_h256_eq(self.code_hash, digest);
        }
        !same
    }

    /// Whether the account is empty: zero nonce, zero balance and no code.
    pub fn is_empty(&self) -> (r: bool)
        ensures
            r == self@.is_empty(),
            r <==> self.nonce@ == 0 && self.balance@ == 0 && self.code_hash@ == empty_digest(),
    {
        let no_code = !self.has_code();
        self.nonce.is_zero() && self.balance.is_zero() && no_code
    }

    /// The canonical encoding of the account.
    pub fn to_rlp(&self) -> (out: Vec<u8>)
        ensures
            out@ == self@.rlp(),
    {
        proof {
            lemma_value_canonical(self.nonce, self.balance);
            lemma_value_canonical(self.balance, self.nonce);
            lemma_scalar_item_len(self.nonce@);
            lemma_scalar_item_len(self.balance@);
            lemma_str_item_len(self.storage_root@);
            lemma_str_item_len(self.code_hash@);
        }
        let payload = join(
            encode_bytes(self.storage_root.bytes.as_slice()),
            encode_bytes(self.code_hash.bytes.as_slice()),
        );
        let payload = join(encode_u256(&self.balance), payload);
        let payload = join(encode_u256(&self.nonce), payload);
        encode_list(payload.as_slice())
    }
}

impl Default for AccountState {
    fn default() -> (account: AccountState)
        ensures
            account@ == AccountView::fresh(0),
    {
        AccountState::new(U256::zero())
    }
}

} // verus!
