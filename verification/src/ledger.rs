//! The ledger: the world state and the chain store behind the operations
//! that a query server asks for.

use crate::accountstate::AccountState;
use crate::accountstate::AccountView;
use crate::block::Block;
use crate::block::BlockView;
use crate::chain::position;
use crate::chain::select;
use crate::chain::total_difficulty_at;
use crate::chain::valid_chain;
use crate::chain::BlockChain;
use crate::chain::BlockSelector;
use crate::error::Error;
use crate::hash::Address;
use crate::hash::H256;
use crate::transaction::Transaction;
use crate::uint::U256;
use crate::worldstate::account_or_fresh;
use crate::worldstate::eligible_for_credit;
use crate::worldstate::is_page;
use crate::worldstate::is_ranking;
use crate::worldstate::spec_credit;
use crate::worldstate::WorldState;
use crate::worldstate::ONE_ETHER;
use vstd::prelude::*;

verus! {

/// The world state and the chain store of one node. Whoever holds the
/// ledger exclusively changes it in one step: no reader sees a transaction
/// half applied.
#[derive(Clone, Debug)]
pub struct Ledger {
    state: WorldState,
    chain: BlockChain,
}

impl Ledger {
    /// The accounts.
    pub closed spec fn accounts(&self) -> Map<Seq<u8>, AccountView> {
        self.state@
    }

    /// The accounts with their addresses, in the order in which the addresses
    /// were first written.
    pub closed spec fn account_order(&self) -> Seq<(Seq<u8>, AccountView)> {
        self.state.order()
    }

    /// The stored blocks, in the order in which they were stored.
    pub closed spec fn blocks(&self) -> Seq<BlockView> {
        self.chain.blocks()
    }

    /// The index of the head among the stored blocks.
    pub closed spec fn head_index(&self) -> int {
        self.chain.head_index()
    }

    /// The invariant of the representation: that of the world state and
    /// that of the chain store.
    pub closed spec fn wf(&self) -> bool {
        self.state.wf() && self.chain.wf()
    }

    /// The blocks of a well-formed ledger are a valid chain store.
    pub proof fn lemma_wf(&self)
        requires
            self.wf(),
        ensures
            valid_chain(self.blocks(), self.head_index()),
    {
        self.chain.lemma_wf();
    }

    /// The ledger over a world state and a chain store.
    pub fn new(state: WorldState, chain: BlockChain) -> (ledger: Ledger)
        requires
            state.wf(),
            chain.wf(),
        ensures
            ledger.wf(),
            ledger.accounts() == state@,
            ledger.blocks() == chain.blocks(),
            ledger.head_index() == chain.head_index(),
    {
        Ledger { state, chain }
    }

    /// The world state.
    pub fn state(&self) -> (state: &WorldState)
        requires
            self.wf(),
        ensures
            state.wf(),
            state@ == self.accounts(),
            state.order() == self.account_order(),
    {
        &self.state
    }

    /// The chain store.
    pub fn chain(&self) -> (chain: &BlockChain)
        requires
            self.wf(),
        ensures
            chain.wf(),
            chain.blocks() == self.blocks(),
            chain.head_index() == self.head_index(),
    {
        &self.chain
    }

    /// The account stored at `address`, if there is one.
    pub fn get_account(&self, address: &Address) -> (r: Option<AccountState>)
        requires
            self.wf(),
        ensures
            r is Some <==> self.accounts().dom().contains(address@),
            r matches Some(account) ==> account@ == self.accounts()[address@],
    {
        self.state.lookup(address)
    }

    /// The balance of the account at `address`; zero when there is none.
    pub fn get_balance(&self, address: &Address) -> (balance: U256)
        requires
            self.wf(),
        ensures
            balance@ == account_or_fresh(self.accounts(), address@).balance,
    {
        self.state.balance_of(address)
    }

    /// The accounts from rank `offset` on, `limit` of them, each with its
    /// balance: greater balances first, and of equal balances the one that
    /// was written first. `None` when there are fewer than `offset + limit`
    /// accounts.
    pub fn top_accounts(&self, offset: usize, limit: usize) -> (r: Option<Vec<(Address, U256)>>)
        requires
            self.wf(),
        ensures
            r is Some <==> offset + limit <= self.account_order().len(),
            r matches Some(top) ==> exists|ranking: Seq<usize>|
                is_ranking(self.account_order(), ranking) && is_page(
                    self.account_order(),
                    ranking,
                    offset as int,
                    limit as int,
                    top@,
                ),
    {
        proof {
            self.state.lemma_order();
        }
        self.state.top_accounts(offset, limit)
    }

    /// The block that `selector` names, if there is one.
    pub fn get_block(&self, selector: &BlockSelector) -> (r: Option<&Block>)
        requires
            self.wf(),
        ensures
            match select(self.blocks(), self.head_index(), *selector) {
                Some(i) => {
                    &&& 0 <= i < self.blocks().len()
                    &&& r matches Some(block)
                    &&& block@ == self.blocks()[i]
                },
                None => r is None,
            },
    {
        self.chain.get_block(selector)
    }

    /// The total difficulty of the block with header hash `block_hash`.
    pub fn total_difficulty(&self, block_hash: &H256) -> (r: Result<U256, Error>)
        requires
            self.wf(),
        ensures
            match position(self.blocks(), block_hash@) {
                Some(i) => {
                    &&& r matches Ok(total)
                    &&& total@ == total_difficulty_at(self.blocks(), i)
                },
                None => r == Err::<U256, Error>(Error::UnknownBlock),
            },
    {
        self.chain.total_difficulty(block_hash)
    }

    /// Refuses a transaction whose signature is out of range; else validates
    /// it against the account of `sender` and applies it, as
    /// [`Transaction::execute`] does. Returns the gas that is left. A
    /// refusal leaves the ledger as it was.
    pub fn validate_and_apply_transaction(
        &mut self,
        transaction: &Transaction,
        sender: &Address,
        block_gas_used: &U256,
        block_gas_limit: &U256,
    ) -> (r: Result<U256, Error>)
        requires
            old(self).wf(),
        ensures
            final(self).wf(),
            final(self).blocks() == old(self).blocks(),
            final(self).head_index() == old(self).head_index(),
            !transaction.signature.spec_is_valid() ==> r == Err::<U256, Error>(
                Error::InvalidSignature,
            ) && final(self).accounts() == old(self).accounts(),
            transaction.signature.spec_is_valid() ==> match transaction@.execute_result(
                account_or_fresh(old(self).accounts(), sender@),
                block_gas_used@,
                block_gas_limit@,
            ) {
                Ok(gas) => {
                    &&& r matches Ok(left)
                    &&& left@ == gas
                    &&& final(self).accounts() == old(self).accounts().insert(
                        sender@,
                        transaction@.debit(account_or_fresh(old(self).accounts(), sender@)),
                    )
                },
                Err(e) => r == Err::<U256, Error>(e) && final(self).accounts() == old(
                    self,
                ).accounts(),
            },
    {
        if !transaction.signature.is_valid() {
            return Err(Error::InvalidSignature);
        }
        transaction.execute(&mut self.state, sender, block_gas_used, block_gas_limit)
    }

    /// Sets the balance of the account at `address` to `amount` if the
    /// account owns nothing, creating it if there is none. An account with a
    /// balance is refused and the ledger stays as it was.
    pub fn credit_if_zero_balance(&mut self, address: Address, amount: U256) -> (r: Result<
        (),
        Error,
    >)
        requires
            old(self).wf(),
        ensures
            final(self).wf(),
            final(self).blocks() == old(self).blocks(),
            final(self).head_index() == old(self).head_index(),
            final(self).accounts() == spec_credit(old(self).accounts(), address@, amount@),
            r is Ok <==> eligible_for_credit(old(self).accounts(), address@),
            r is Err ==> r == Err::<(), Error>(Error::AccountNotEligible),
    {
        self.state.credit_if_zero_balance(address, amount)
    }

    /// Gives one native unit to the account at `address` if it owns
    /// nothing.
    pub fn faucet(&mut self, address: Address) -> (r: Result<(), Error>)
        requires
            old(self).wf(),
        ensures
            final(self).wf(),
            final(self).blocks() == old(self).blocks(),
            final(self).head_index() == old(self).head_index(),
            final(self).accounts() == spec_credit(
                old(self).accounts(),
                address@,
                ONE_ETHER as nat,
            ),
            r is Ok <==> eligible_for_credit(old(self).accounts(), address@),
            r is Err ==> r == Err::<(), Error>(Error::AccountNotEligible),
    {
        self.state.credit_if_zero_balance(address, U256::from_u128(ONE_ETHER))
    }
}

} // verus!
