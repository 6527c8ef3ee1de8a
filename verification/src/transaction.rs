//! Transactions: signature validity, intrinsic gas, up-front cost, the
//! validity rule and the effect on the sender's account.

use crate::accountstate::AccountState;
use crate::accountstate::AccountView;
use crate::codec::encode_opt_short;
use crate::codec::encode_u256;
use crate::codec::encode_u64;
use crate::codec::join;
use crate::codec::list_item;
use crate::codec::opt_str_fits;
use crate::codec::opt_str_item;
use crate::codec::opt_view;
use crate::codec::scalar_item;
use crate::codec::try_encode_list;
use crate::codec::try_encode_opt_bytes;
use crate::codec::MAX_PAYLOAD;
use crate::error::Error;
use crate::feeschedule::FeeSchedule;
use crate::feeschedule::TRANSACTION;
use crate::feeschedule::TX_CREATE;
use crate::feeschedule::TX_DATA_NON_ZERO;
use crate::feeschedule::TX_DATA_ZERO;
use crate::hash::keccak256;
use crate::hash::keccak256_digest;
use crate::hash::Address;
use crate::hash::H256;
use crate::uint::lemma_value_canonical;
use crate::uint::modulus;
use crate::uint::Wei;
use crate::uint::U256;
use crate::worldstate::account_or_fresh;
use crate::worldstate::WorldState;
use vstd::prelude::*;

verus! {

/// The order of the secp256k1 group.
pub open spec fn secp256k1n() -> nat {
    115792089237316195423570985008687907852837564279074904382605163141518161494337nat
}

/// The order of the secp256k1 group.
pub fn secp256k1n_value() -> (n: U256)
    ensures
        n@ == secp256k1n(),
{
    U256 {
        w0: 0xbfd2_5e8c_d036_4141,
        w1: 0xbaae_dce6_af48_a03b,
        w2: 0xffff_ffff_ffff_fffe,
        w3: 0xffff_ffff_ffff_ffff,
    }
}

/// The bound on a signature's `s`: half the group order, rounded down, plus
/// one.
pub fn secp256k1n_half_plus_one() -> (h: U256)
    ensures
        h@ == secp256k1n() / 2 + 1,
{
    U256 {
        w0: 0xdfe9_2f46_681b_20a1,
        w1: 0x5d57_6e73_57a4_501d,
        w2: 0xffff_ffff_ffff_ffff,
        w3: 0x7fff_ffff_ffff_ffff,
    }
}

/// An ECDSA signature over secp256k1.
#[derive(Clone, Copy, Debug, PartialEq, Eq, Structural)]
pub struct Signature {
    /// The recovery identifier.
    pub v: u8,
    /// The first component.
    pub r: U256,
    /// The second component.
    pub s: U256,
}

impl Signature {
    /// Whether the components are in range: `0 < r < n`, `0 < s < n / 2 + 1`
    /// and `v` is 27 or 28, `n` being the group order.
    pub open spec fn spec_is_valid(&self) -> bool {
        &&& 0 < self.r@ < secp256k1n()
        &&& 0 < self.s@ < secp256k1n() / 2 + 1
        &&& (self.v == 27 || self.v == 28)
    }

    /// The signature with the given components.
    pub fn new(v: u8, r: U256, s: U256) -> (sig: Signature)
        ensures
            sig == (Signature { v, r, s }),
    {
        Signature { v, r, s }
    }

    /// Whether the components are in range.
    pub fn is_valid(&self) -> (valid: bool)
        ensures
            valid == self.spec_is_valid(),
    {
        let n = secp256k1n_value();
        let half = secp256k1n_half_plus_one();
        !self.r.is_zero() && self.r.lt(&n) && !self.s.is_zero() && self.s.lt(&half) && (self.v
            == 27 || self.v == 28)
    }
}

impl Default for Signature {
    fn default() -> (sig: Signature)
        ensures
            sig.v == 0,
            sig.r@ == 0,
            sig.s@ == 0,
    {
        Signature { v: 0, r: U256::zero(), s: U256::zero() }
    }
}

/// The gas paid for the bytes of a payload: each zero byte and each other
/// byte at its own price.
pub open spec fn payload_gas(bytes: Seq<u8>) -> nat
    decreases bytes.len(),
{
    if bytes.len() == 0 {
        0
    } else {
        payload_gas(bytes.drop_last()) + if bytes.last() == 0 {
            TX_DATA_ZERO as nat
        } else {
            TX_DATA_NON_ZERO as nat
        }
    }
}

/// What a transaction holds, as plain values.
pub struct TransactionView {
    /// The number of transactions sent by the sender.
    pub nonce: nat,
    /// The Wei paid per unit of gas.
    pub gas_price: nat,
    /// The most gas the transaction may use.
    pub gas_limit: nat,
    /// The recipient; none for a contract creation.
    pub to: Option<Seq<u8>>,
    /// The Wei transferred to the recipient.
    pub value: nat,
    /// The signature's recovery identifier.
    pub v: u8,
    /// The signature's first component.
    pub r: nat,
    /// The signature's second component.
    pub s: nat,
    /// The initialisation code of a contract creation.
    pub init: Option<Seq<u8>>,
    /// The input data of a message call.
    pub data: Option<Seq<u8>>,
}

impl TransactionView {
    /// Whether the values are those of a transaction: scalars below `2^256`
    /// and a recipient of 20 bytes.
    pub open spec fn wf(self) -> bool {
        &&& self.nonce < modulus()
        &&& self.gas_price < modulus()
        &&& self.gas_limit < modulus()
        &&& (self.to matches Some(a) ==> a.len() == 20)
        &&& self.value < modulus()
        &&& self.r < modulus()
        &&& self.s < modulus()
    }

    /// The recipient of a well-formed transaction can always be framed.
    pub proof fn lemma_recipient_fits(self)
        requires
            self.wf(),
        ensures
            opt_str_fits(self.to),
    {
        if let Some(a) = self.to {
            crate::codec::lemma_str_item_len(a);
        }
    }

    /// The bytes that are paid for: the initialisation code of a contract
    /// creation, which has no recipient, and else the call data, an absent
    /// one of the two counting as empty; none where both are absent.
    pub open spec fn payload(self) -> Option<Seq<u8>> {
        if self.init is None && self.data is None {
            None
        } else {
            let chosen = if self.to is None {
                self.init
            } else {
                self.data
            };
            match chosen {
                Some(bytes) => Some(bytes),
                None => Some(Seq::empty()),
            }
        }
    }

    /// The gas that the transaction pays before it runs: the flat cost, the
    /// creation cost where there is no recipient, and the cost of each byte
    /// of the payload. None where the transaction has no payload.
    pub open spec fn intrinsic_gas(self) -> Option<nat> {
        match self.payload() {
            None => None,
            Some(bytes) => Some(
                TRANSACTION as nat + (if self.to is None {
                    TX_CREATE as nat
                } else {
                    0
                }) + payload_gas(bytes),
            ),
        }
    }

    /// The Wei the sender must own: the gas limit at the gas price, plus the
    /// value transferred.
    pub open spec fn up_front_cost(self) -> nat {
        self.gas_limit * self.gas_price + self.value
    }

    /// The verdict on the transaction against its sender's account, the gas
    /// the block has used so far and the block's gas limit: the first rule
    /// that is broken, in this order: the nonce is the sender's; the
    /// transaction has a payload, and so an intrinsic gas; the gas limit
    /// covers the intrinsic gas; the sender owns the up-front cost; the block
    /// has room for the gas limit.
    pub open spec fn validate(self, sender: AccountView, block_gas_used: nat, block_gas_limit: nat) -> Result<
        (),
        Error,
    > {
        if self.nonce != sender.nonce {
            Err(Error::InvalidNonce)
        } else {
            match self.intrinsic_gas() {
                None => Err(Error::MalformedTransaction),
                Some(g0) => if self.gas_limit < g0 {
                    Err(Error::GasLimitTooLow)
                } else if sender.balance < self.up_front_cost() {
                    Err(Error::InsufficientBalance)
                } else if block_gas_used + self.gas_limit > block_gas_limit {
                    Err(Error::BlockGasExceeded)
                } else {
                    Ok(())
                },
            }
        }
    }

    /// What executing the transaction returns: the refusal of `validate`,
    /// `Overflow` where the sender's nonce cannot grow, and else the gas left
    /// after the intrinsic gas.
    pub open spec fn execute_result(self, sender: AccountView, block_gas_used: nat, block_gas_limit: nat) -> Result<
        nat,
        Error,
    > {
        match self.validate(sender, block_gas_used, block_gas_limit) {
            Err(e) => Err(e),
            Ok(_) => if sender.nonce + 1 >= modulus() {
                Err(Error::Overflow)
            } else {
                Ok((self.gas_limit - self.intrinsic_gas()->0) as nat)
            },
        }
    }

    /// The sender's account after the transaction was executed: the gas
    /// limit at the gas price is taken from the balance, and the nonce has
    /// grown by one.
    pub open spec fn debit(self, sender: AccountView) -> AccountView {
        AccountView {
            nonce: sender.nonce + 1,
            balance: (sender.balance - self.gas_limit * self.gas_price) as nat,
            ..sender
        }
    }

    /// The concatenated encodings of the fields, in declaration order.
    pub open spec fn rlp_payload(self) -> Seq<u8> {
        scalar_item(self.nonce) + (scalar_item(self.gas_price) + (scalar_item(self.gas_limit) + (
        opt_str_item(self.to) + (scalar_item(self.value) + (scalar_item(self.v as nat) + (
        scalar_item(self.r) + (scalar_item(self.s) + (opt_str_item(self.init) + opt_str_item(
            self.data,
        )))))))))
    }

    /// The canonical encoding: the list of the fields.
    pub open spec fn rlp(self) -> Seq<u8> {
        list_item(self.rlp_payload())
    }

    /// Whether the transaction can be encoded: the code, the data and the
    /// whole payload are each short enough to be framed.
    pub open spec fn rlp_fits(self) -> bool {
        &&& opt_str_fits(self.init)
        &&& opt_str_fits(self.data)
        &&& self.rlp_payload().len() <= MAX_PAYLOAD
    }

    /// The digest of the canonical encoding.
    pub open spec fn hash(self) -> Seq<u8> {
        keccak256_digest(self.rlp())
    }
}

/// A signed instruction from an external actor: a message call, or the
/// creation of a contract.
#[derive(Clone, Debug, PartialEq, Eq)]
pub struct Transaction {
    /// The number of transactions sent by the sender.
    pub nonce: U256,
    /// The Wei paid per unit of gas.
    pub gas_price: Wei,
    /// The most gas that may be used in executing this transaction.
    pub gas_limit: U256,
    /// The recipient of the message call; none for a contract creation.
    pub to: Option<Address>,
    /// The Wei transferred to the recipient, or endowed to the new account.
    pub value: Wei,
    /// The signature, from which the sender is recovered.
    pub signature: Signature,
    /// The initialisation code of a contract creation.
    pub init: Option<Vec<u8>>,
    /// The input data of a message call.
    pub data: Option<Vec<u8>>,
}

impl View for Transaction {
    type V = TransactionView;

    open spec fn view(&self) -> TransactionView {
        TransactionView {
            nonce: self.nonce@,
            gas_price: self.gas_price@,
            gas_limit: self.gas_limit@,
            to: match self.to {
                Some(a) => Some(a@),
                None => None,
            },
            value: self.value@,
            v: self.signature.v,
            r: self.signature.r@,
            s: self.signature.s@,
            init: opt_view(self.init),
            data: opt_view(self.data),
        }
    }
}

/// A transaction is applied once: against the account that its execution
/// leaves behind it is refused for its nonce, whatever the block.
pub proof fn lemma_applied_once(
    tx: TransactionView,
    sender: AccountView,
    block_gas_used: nat,
    block_gas_limit: nat,
    later_gas_used: nat,
    later_gas_limit: nat,
)
    requires
        tx.execute_result(sender, block_gas_used, block_gas_limit) is Ok,
    ensures
        tx.debit(sender).nonce == sender.nonce + 1,
        tx.debit(sender).balance + tx.gas_limit * tx.gas_price == sender.balance,
        tx.validate(tx.debit(sender), later_gas_used, later_gas_limit) == Err::<(), Error>(
            Error::InvalidNonce,
        ),
        tx.execute_result(tx.debit(sender), later_gas_used, later_gas_limit) == Err::<nat, Error>(
            Error::InvalidNonce,
        ),
{
    assert(tx.gas_limit * tx.gas_price <= tx.up_front_cost());
}

/// The payload's gas never exceeds the price of as many non-zero bytes.
pub proof fn lemma_payload_gas_bound(bytes: Seq<u8>)
    ensures
        payload_gas(bytes) <= TX_DATA_NON_ZERO * bytes.len(),
    decreases bytes.len(),
{
    if bytes.len() > 0 {
        lemma_payload_gas_bound(bytes.drop_last());
    }
}

fn payload_gas_of(bytes: &Vec<u8>) -> (gas: u128)
    ensures
        gas == payload_gas(bytes@),
        gas <= TX_DATA_NON_ZERO * usize::MAX,
{
    let fees = FeeSchedule::new();
    let mut gas: u128 = 0;
    let mut i: usize = 0;
    while i < bytes.len()
        invariant
            i <= bytes@.len(),
            fees == crate::feeschedule::reference_schedule(),
            gas == payload_gas(bytes@.take(i as int)),
            gas <= TX_DATA_NON_ZERO * i,
        decreases bytes@.len() - i,
    {
        proof {
            assert(bytes@.take(i + 1).drop_last() =~= bytes@.take(i as int));
            lemma_payload_gas_bound(bytes@.take(i + 1));
        }
        if bytes[i] == 0 {
            gas = gas + fees.tx_data_zero as u128;
        } else {
            gas = gas + fees.tx_data_non_zero as u128;
        }
        i += 1;
    }
    assert(bytes@.take(i as int) =~= bytes@);
    gas
}

impl Transaction {
    /// The values of a transaction are well-formed.
    pub proof fn lemma_view_wf(&self)
        ensures
            self@.wf(),
    {
        lemma_value_canonical(self.nonce, self.gas_price);
        lemma_value_canonical(self.gas_price, self.gas_limit);
        lemma_value_canonical(self.gas_limit, self.value);
        lemma_value_canonical(self.value, self.signature.r);
        lemma_value_canonical(self.signature.r, self.signature.s);
        lemma_value_canonical(self.signature.s, self.nonce);
    }

    /// The gas that the transaction pays before it runs. A transaction with
    /// neither initialisation code nor call data is refused as malformed.
    pub fn intrinsic_gas(&self) -> (r: Result<u128, Error>)
        ensures
            match self@.intrinsic_gas() {
                Some(g0) => r == Ok::<u128, Error>(g0 as u128) && g0 <= u128::MAX,
                None => r == Err::<u128, Error>(Error::MalformedTransaction),
            },
    {
        let fees = FeeSchedule::new();
        if self.init.is_none() && self.data.is_none() {
            return Err(Error::MalformedTransaction);
        }
        let chosen = if self.to.is_none() {
            &self.init
        } else {
            &self.data
        };
        let bytes_gas = match chosen {
            Some(bytes) => payload_gas_of(bytes),
            None => 0,
        };
        let creation: u128 = if self.to.is_none() {
            fees.tx_create as u128
        } else {
            0
        };
        Ok(fees.transaction as u128 + creation + bytes_gas)
    }

    /// Whether the components of the signature are in range.
    pub fn is_signature_valid(&self) -> (valid: bool)
        ensures
            valid == self.signature.spec_is_valid(),
    {
        self.signature.is_valid()
    }

    /// The Wei the sender must own, or `None` when the amount does not fit
    /// in 256 bits.
    pub fn checked_up_front_cost(&self) -> (r: Option<U256>)
        ensures
            r is Some <==> self@.up_front_cost() < modulus(),
            r matches Some(cost) ==> cost@ == self@.up_front_cost(),
    {
        match self.gas_limit.checked_mul(&self.gas_price) {
            None => None,
            Some(gas_cost) => gas_cost.checked_add(&self.value),
        }
    }

    /// The Wei the sender must own.
    pub fn up_front_cost(&self) -> (cost: U256)
        requires
            self@.up_front_cost() < modulus(),
        ensures
            cost@ == self@.up_front_cost(),
    {
        self.checked_up_front_cost().unwrap()
    }

    /// Judges the transaction against its sender's account, the gas that the
    /// block has used so far and the block's gas limit.
    pub fn validate(&self, sender: &AccountState, block_gas_used: &U256, block_gas_limit: &U256) -> (r:
        Result<(), Error>)
        ensures
            r == self@.validate(sender@, block_gas_used@, block_gas_limit@),
    {
        proof {
            lemma_value_canonical(self.nonce, sender.nonce);
            lemma_value_canonical(sender.balance, *block_gas_limit);
        }
        if self.nonce != sender.nonce {
            return Err(Error::InvalidNonce);
        }
        let g0 = match self.intrinsic_gas() {
            Ok(g0) => g0,
            Err(e) => {
                return Err(e);
            },
        };
        if self.gas_limit.lt(&U256::from_u128(g0)) {
            return Err(Error::GasLimitTooLow);
        }
        match self.checked_up_front_cost() {
            None => {
                return Err(Error::InsufficientBalance);
            },
            Some(cost) => {
                if sender.balance.lt(&cost) {
                    return Err(Error::InsufficientBalance);
                }
            },
        }
        match block_gas_used.checked_add(&self.gas_limit) {
            None => Err(Error::BlockGasExceeded),
            Some(total) => {
                if total.gt(block_gas_limit) {
                    Err(Error::BlockGasExceeded)
                } else {
                    Ok(())
                }
            },
        }
    }

    /// Validates the transaction against the account of `sender`, a missing
    /// account counting as a fresh one without balance, and then takes the
    /// gas limit at the gas price from the sender's balance and adds one to
    /// the sender's nonce. Returns the gas that is left for the call or the
    /// creation. A refusal leaves the state as it was.
    pub fn execute(
        &self,
        state: &mut WorldState,
        sender: &Address,
        block_gas_used: &U256,
        block_gas_limit: &U256,
    ) -> (r: Result<U256, Error>)
        requires
            old(state).wf(),
        ensures
            final(state).wf(),
            match self@.execute_result(
                account_or_fresh(old(state)@, sender@),
                block_gas_used@,
                block_gas_limit@,
            ) {
                Ok(gas) => {
                    &&& r matches Ok(left)
                    &&& left@ == gas
                    &&& final(state)@ == old(state)@.insert(
                        sender@,
                        self@.debit(account_or_fresh(old(state)@, sender@)),
                    )
                },
                Err(e) => r == Err::<U256, Error>(e) && final(state)@ == old(state)@,
            },
    {
        let mut account = match state.lookup(sender) {
            Some(account) => account,
            None => AccountState::default(),
        };
        if let Err(e) = self.validate(&account, block_gas_used, block_gas_limit) {
            return Err(e);
        }
        let g0 = match self.intrinsic_gas() {
            Ok(g0) => g0,
            Err(e) => {
                return Err(e);
            },
        };
        let nonce = match account.nonce.checked_add(&U256::one()) {
            Some(nonce) => nonce,
            None => {
                return Err(Error::Overflow);
            },
        };
        proof {
            lemma_value_canonical(account.balance, self.value);
            assert(self@.gas_limit * self@.gas_price <= self@.up_front_cost());
        }
        let gas_cost = self.gas_limit.checked_mul(&self.gas_price).unwrap();
        let balance = account.balance.checked_sub(&gas_cost).unwrap();
        let left = self.gas_limit.checked_sub(&U256::from_u128(g0)).unwrap();
        account.nonce = nonce;
        account.balance = balance;
        state.insert(*sender, account);
        Ok(left)
    }

    /// The canonical encoding of the transaction, or `None` when the code,
    /// the data or the whole payload is too long to be framed.
    pub fn try_to_rlp(&self) -> (out: Option<Vec<u8>>)
        ensures
            out is Some <==> self@.rlp_fits(),
            out matches Some(bytes) ==> bytes@ == self@.rlp(),
    {
        let init = match try_encode_opt_bytes(&self.init) {
            Some(init) => init,
            None => {
                return None;
            },
        };
        let data = match try_encode_opt_bytes(&self.data) {
            Some(data) => data,
            None => {
                return None;
            },
        };
        let to = match &self.to {
            Some(a) => encode_opt_short(Some(a.bytes.as_slice())),
            None => encode_opt_short(None),
        };
        let payload = join(init, data);
        let payload = join(encode_u256(&self.signature.s), payload);
        let payload = join(encode_u256(&self.signature.r), payload);
        let payload = join(encode_u64(self.signature.v as u64), payload);
        let payload = join(encode_u256(&self.value), payload);
        let payload = join(to, payload);
        let payload = join(encode_u256(&self.gas_limit), payload);
        let payload = join(encode_u256(&self.gas_price), payload);
        let payload = join(encode_u256(&self.nonce), payload);
        try_encode_list(payload.as_slice())
    }

    /// The canonical encoding of the transaction.
    pub fn to_rlp(&self) -> (out: Vec<u8>)
        requires
            self@.rlp_fits(),
        ensures
            out@ == self@.rlp(),
    {
        self.try_to_rlp().unwrap()
    }

    /// The digest of the canonical encoding, or `None` when the transaction
    /// cannot be encoded.
    pub fn try_hash(&self) -> (h: Option<H256>)
        ensures
            h is Some <==> self@.rlp_fits(),
            h matches Some(digest) ==> digest@ == self@.hash(),
    {
        match self.try_to_rlp() {
            Some(bytes) => Some(keccak256(bytes.as_slice())),
            None => None,
        }
    }

    /// The digest of the canonical encoding.
    pub fn hash(&self) -> (h: H256)
        requires
            self@.rlp_fits(),
        ensures
            h@ == self@.hash(),
    {
        keccak256(self.to_rlp().as_slice())
    }
}

impl Default for Transaction {
    fn default() -> (tx: Transaction)
        ensures
            tx@ == (TransactionView {
                nonce: 0,
                gas_price: 0,
                gas_limit: 0,
                to: None,
                value: 0,
                v: 0,
                r: 0,
                s: 0,
                init: None,
                data: None,
            }),
    {
        Transaction {
            nonce: U256::zero(),
            gas_price: U256::zero(),
            gas_limit: U256::zero(),
            to: None,
            value: U256::zero(),
            signature: Signature::default(),
            init: None,
            data: None,
        }
    }
}

} // verus!
