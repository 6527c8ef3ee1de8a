//! The world state: the mapping from addresses to account states.

use crate::accountstate::AccountState;
use crate::accountstate::AccountView;
use crate::error::Error;
use crate::hash::lemma_address_eq;
use crate::hash::Address;
use crate::uint::U256;
use vstd::prelude::*;

verus! {

/// One native unit in base units: `10^18` Wei.
pub const ONE_ETHER: u128 = 1_000_000_000_000_000_000;

/// One native unit in base units.
pub fn one_ether() -> (wei: U256)
    ensures
        wei@ == ONE_ETHER,
{
    U256::from_u128(ONE_ETHER)
}

/// The bytes of the address that holds the first genesis balance.
pub open spec fn genesis_address() -> Seq<u8> {
    seq![
        0xe9u8, 0x4c, 0x35, 0xa6, 0xa3, 0x2c, 0x75, 0x98, 0x65, 0xdc,
        0x49, 0x80, 0x7f, 0x0a, 0xd3, 0x05, 0x68, 0x48, 0xc8, 0xbf,
    ]
}

/// The genesis state whose second and third accounts live at the given
/// addresses: fresh accounts that own 42, 420 and 4200 native units, written
/// in that order, a later one replacing an earlier one at the same address.
pub open spec fn spec_genesis_state(second: Seq<u8>, third: Seq<u8>) -> Map<Seq<u8>, AccountView> {
    Map::<Seq<u8>, AccountView>::empty().insert(
        genesis_address(),
        AccountView::fresh(42 * ONE_ETHER as nat),
    ).insert(second, AccountView::fresh(420 * ONE_ETHER as nat)).insert(
        third,
        AccountView::fresh(4200 * ONE_ETHER as nat),
    )
}

/// Whether the account at `address` is dead: there is none, or it is empty.
pub open spec fn spec_is_dead(state: Map<Seq<u8>, AccountView>, address: Seq<u8>) -> bool {
    !state.dom().contains(address) || state[address].is_empty()
}

/// The account at `address`, a fresh account without balance standing for a
/// missing one.
pub open spec fn account_or_fresh(state: Map<Seq<u8>, AccountView>, address: Seq<u8>) -> AccountView {
    if state.dom().contains(address) {
        state[address]
    } else {
        AccountView::fresh(0)
    }
}

/// Whether the account at `address` may be credited: it owns nothing, or does
/// not exist yet.
pub open spec fn eligible_for_credit(state: Map<Seq<u8>, AccountView>, address: Seq<u8>) -> bool {
    account_or_fresh(state, address).balance == 0
}

/// The state after crediting `amount` to the account at `address` if it is
/// eligible, and the unchanged state if it is not.
pub open spec fn spec_credit(state: Map<Seq<u8>, AccountView>, address: Seq<u8>, amount: nat) -> Map<
    Seq<u8>,
    AccountView,
> {
    if eligible_for_credit(state, address) {
        let account = account_or_fresh(state, address);
        state.insert(address, AccountView { balance: amount, ..account })
    } else {
        state
    }
}

/// Whether the account at index `a` ranks before the one at index `b`: it
/// owns more, or as much and was written first.
pub open spec fn outranks(accounts: Seq<(Seq<u8>, AccountView)>, a: int, b: int) -> bool {
    accounts[a].1.balance > accounts[b].1.balance || (accounts[a].1.balance
        == accounts[b].1.balance && a < b)
}

/// Whether `ranking` lists the indices of the accounts by rank: as many
/// indices as accounts, each of them an index, and each ranking before all
/// that follow it.
pub open spec fn is_ranking(accounts: Seq<(Seq<u8>, AccountView)>, ranking: Seq<usize>) -> bool {
    &&& ranking.len() == accounts.len()
    &&& forall|k: int| 0 <= k < ranking.len() ==> #[trigger] ranking[k] < accounts.len()
    &&& forall|k: int, l: int|
        0 <= k < l < ranking.len() ==> outranks(accounts, ranking[k] as int, ranking[l] as int)
}

/// Whether `page` holds the addresses and balances of the accounts at the
/// ranks from `offset` on, `limit` of them, in order.
pub open spec fn is_page(
    accounts: Seq<(Seq<u8>, AccountView)>,
    ranking: Seq<usize>,
    offset: int,
    limit: int,
    page: Seq<(Address, U256)>,
) -> bool {
    &&& page.len() == limit
    &&& forall|j: int|
        0 <= j < limit ==> (#[trigger] page[j]).0@ == accounts[ranking[offset + j] as int].0
            && page[j].1@ == accounts[ranking[offset + j] as int].1.balance
}

/// The mapping that a sequence of entries stands for; of two entries with the
/// same address the later one counts.
pub open spec fn entries_map(s: Seq<(Address, AccountState)>) -> Map<Seq<u8>, AccountView>
    decreases s.len(),
{
    if s.len() == 0 {
        Map::empty()
    } else {
        entries_map(s.drop_last()).insert(s.last().0@, s.last().1@)
    }
}

/// No two entries have the same address.
pub open spec fn distinct_addresses(s: Seq<(Address, AccountState)>) -> bool {
    forall|i: int, j: int| 0 <= i < j < s.len() ==> s[i].0@ != s[j].0@
}

proof fn lemma_entries_map_dom(s: Seq<(Address, AccountState)>, k: Seq<u8>)
    ensures
        entries_map(s).dom().contains(k) <==> exists|i: int| 0 <= i < s.len() && s[i].0@ == k,
    decreases s.len(),
{
    if s.len() > 0 {
        lemma_entries_map_dom(s.drop_last(), k);
        if entries_map(s).dom().contains(k) {
            if s.last().0@ == k {
                assert(s[s.len() - 1].0@ == k);
            } else {
                let i = choose|i: int| 0 <= i < s.drop_last().len() && s.drop_last()[i].0@ == k;
                assert(s[i].0@ == k);
            }
        }
        if exists|i: int| 0 <= i < s.len() && s[i].0@ == k {
            let i = choose|i: int| 0 <= i < s.len() && s[i].0@ == k;
            if i < s.len() - 1 {
                assert(s.drop_last()[i].0@ == k);
            }
        }
    }
}

proof fn lemma_entries_map_at(s: Seq<(Address, AccountState)>, i: int)
    requires
        distinct_addresses(s),
        0 <= i < s.len(),
    ensures
        entries_map(s).dom().contains(s[i].0@),
        entries_map(s)[s[i].0@] == s[i].1@,
    decreases s.len(),
{
    if i < s.len() - 1 {
        assert(s.drop_last()[i] == s[i]);
        lemma_entries_map_at(s.drop_last(), i);
    }
}

proof fn lemma_entries_map_update(s: Seq<(Address, AccountState)>, i: int, e: (Address, AccountState))
    requires
        distinct_addresses(s),
        0 <= i < s.len(),
        e.0@ == s[i].0@,
    ensures
        distinct_addresses(s.update(i, e)),
        entries_map(s.update(i, e)) == entries_map(s).insert(e.0@, e.1@),
    decreases s.len(),
{
    let t = s.update(i, e);
    if i == s.len() - 1 {
        assert(t.drop_last() =~= s.drop_last());
        assert(entries_map(t) =~= entries_map(s).insert(e.0@, e.1@));
    } else {
        assert(t.drop_last() =~= s.drop_last().update(i, e));
        assert(s.drop_last()[i] == s[i]);
        lemma_entries_map_update(s.drop_last(), i, e);
        assert(t.last() == s.last());
        assert(s.last().0@ != e.0@);
        assert(entries_map(t) =~= entries_map(s).insert(e.0@, e.1@));
    }
}

/// The world state: at most one account state for each address.
#[derive(Clone, Debug)]
pub struct WorldState {
    entries: Vec<(Address, AccountState)>,
}

impl View for WorldState {
    type V = Map<Seq<u8>, AccountView>;

    closed spec fn view(&self) -> Map<Seq<u8>, AccountView> {
        entries_map(self.entries@)
    }
}

impl WorldState {
    /// The invariant of the representation: no address is stored twice.
    pub closed spec fn wf(&self) -> bool {
        distinct_addresses(self.entries@)
    }

    /// The state without any account.
    pub fn new() -> (state: WorldState)
        ensures
            state.wf(),
            state@ == Map::<Seq<u8>, AccountView>::empty(),
    {
        WorldState { entries: Vec::new() }
    }

    /// The number of accounts.
    pub fn len(&self) -> (n: usize)
        requires
            self.wf(),
        ensures
            n == self.spec_len(),
    {
        self.entries.len()
    }

    /// The number of stored accounts.
    pub closed spec fn spec_len(&self) -> nat {
        self.entries@.len()
    }

    /// The stored accounts with their addresses, in the order in which the
    /// addresses were first written.
    pub closed spec fn order(&self) -> Seq<(Seq<u8>, AccountView)> {
        Seq::new(self.entries@.len(), |i: int| (self.entries@[i].0@, self.entries@[i].1@))
    }

    /// The order lists each stored account once.
    pub proof fn lemma_order(&self)
        requires
            self.wf(),
        ensures
            self.order().len() == self.spec_len(),
            forall|i: int|
                0 <= i < self.order().len() ==> self@.dom().contains((#[trigger] self.order()[i]).0)
                    && self@[self.order()[i].0] == self.order()[i].1,
            forall|i: int, j: int|
                0 <= i < j < self.order().len() ==> self.order()[i].0 != self.order()[j].0,
    {
        assert forall|i: int| 0 <= i < self.order().len() implies self@.dom().contains(
            (#[trigger] self.order()[i]).0,
        ) && self@[self.order()[i].0] == self.order()[i].1 by {
            lemma_entries_map_at(self.entries@, i);
        }
    }

    /// The `i`-th stored account with its address, in the order in which the
    /// addresses were first written.
    pub fn entry(&self, i: usize) -> (e: (Address, AccountState))
        requires
            self.wf(),
            i < self.spec_len(),
        ensures
            (e.0@, e.1@) == self.order()[i as int],
            self@.dom().contains(e.0@),
            self@[e.0@] == e.1@,
    {
        proof {
            lemma_entries_map_at(self.entries@, i as int);
        }
        self.entries[i]
    }

    fn find(&self, address: &Address) -> (r: Option<usize>)
        requires
            self.wf(),
        ensures
            r matches Some(i) ==> i < self.entries@.len() && self.entries@[i as int].0@ == address@,
            r is None ==> !self@.dom().contains(address@),
            r is Some ==> self@.dom().contains(address@),
    {
        let mut i: usize = 0;
        while i < self.entries.len()
            invariant
                i <= self.entries@.len(),
                forall|j: int| 0 <= j < i ==> self.entries@[j].0@ != address@,
            decreases self.entries@.len() - i,
        {
            let same = self.entries[i].0 == *address;
            proof {
                lemma_address_eq(self.entries@[i as int].0, *address);
            }
            if same {
                proof {
                    lemma_entries_map_dom(self.entries@, address@);
                }
                return Some(i);
            }
            i += 1;
        }
        proof {
            lemma_entries_map_dom(self.entries@, address@);
        }
        None
    }

    /// The account stored at `address`, if there is one.
    pub fn lookup(&self, address: &Address) -> (r: Option<AccountState>)
        requires
            self.wf(),
        ensures
            r is Some <==> self@.dom().contains(address@),
            r matches Some(account) ==> account@ == self@[address@],
    {
        match self.find(address) {
            Some(i) => {
                proof {
                    lemma_entries_map_at(self.entries@, i as int);
                }
                Some(self.entries[i].1)
            },
            None => None,
        }
    }

    /// Whether an account is stored at `address`.
    pub fn contains(&self, address: &Address) -> (r: bool)
        requires
            self.wf(),
        ensures
            r == self@.dom().contains(address@),
    {
        self.find(address).is_some()
    }

    /// The balance of the account at `address`; zero when there is none.
    pub fn balance_of(&self, address: &Address) -> (balance: U256)
        requires
            self.wf(),
        ensures
            balance@ == account_or_fresh(self@, address@).balance,
    {
        match self.lookup(address) {
            Some(account) => account.balance,
            None => U256::zero(),
        }
    }

    /// Writes `account` at `address`, in place of what was stored there.
    pub fn insert(&mut self, address: Address, account: AccountState)
        requires
            old(self).wf(),
        ensures
            final(self).wf(),
            final(self)@ == old(self)@.insert(address@, account@),
    {
        match self.find(&address) {
            Some(i) => {
                proof {
                    lemma_entries_map_update(self.entries@, i as int, (address, account));
                }
                self.entries[i] = (address, account);
            },
            None => {
                proof {
                    lemma_entries_map_dom(self.entries@, address@);
                    assert(self.entries@.push((address, account)).drop_last() =~= self.entries@);
                }
                self.entries.push((address, account));
            },
        }
    }

    /// Whether the account at `address` is dead: none is stored there, or the
    /// one stored there is empty.
    pub fn is_account_dead(&self, address: &Address) -> (r: bool)
        requires
            self.wf(),
        ensures
            r == spec_is_dead(self@, address@),
    {
        match self.lookup(address) {
            Some(account) => account.is_empty(),
            None => true,
        }
    }

    /// Sets the balance of the account at `address` to `amount` if the
    /// account owns nothing, creating it if there is none. An account with a
    /// balance is refused and the state stays as it was.
    pub fn credit_if_zero_balance(&mut self, address: Address, amount: U256) -> (r: Result<
        (),
        Error,
    >)
        requires
            old(self).wf(),
        ensures
            final(self).wf(),
            final(self)@ == spec_credit(old(self)@, address@, amount@),
            r is Ok <==> eligible_for_credit(old(self)@, address@),
            r is Err ==> r == Err::<(), Error>(Error::AccountNotEligible),
    {
        let mut account = match self.lookup(&address) {
            Some(account) => account,
            None => AccountState::default(),
        };
        if account.balance.is_zero() {
            account.balance = amount;
            self.insert(address, account);
            Ok(())
        } else {
            Err(Error::AccountNotEligible)
        }
    }

    /// The indices of the stored accounts by rank: greater balances first,
    /// and of equal balances the one that was written first.
    pub fn ranking(&self) -> (ranking: Vec<usize>)
        requires
            self.wf(),
        ensures
            is_ranking(self.order(), ranking@),
    {
        let ghost accounts = self.order();
        let mut sorted: Vec<usize> = Vec::new();
        let mut i: usize = 0;
        while i < self.entries.len()
            invariant
                i <= self.entries@.len(),
                accounts == self.order(),
                sorted@.len() == i,
                forall|k: int| 0 <= k < sorted@.len() ==> #[trigger] sorted@[k] < i,
                forall|k: int, l: int|
                    0 <= k < l < sorted@.len() ==> outranks(
                        accounts,
                        sorted@[k] as int,
                        sorted@[l] as int,
                    ),
            decreases self.entries@.len() - i,
        {
            let balance = self.entries[i].1.balance;
            let mut p: usize = 0;
            while p < sorted.len() && self.entries[sorted[p]].1.balance.ge(&balance)
                invariant
                    i < self.entries@.len(),
                    accounts == self.order(),
                    balance == self.entries@[i as int].1.balance,
                    p <= sorted@.len(),
                    forall|k: int| 0 <= k < sorted@.len() ==> #[trigger] sorted@[k] < i,
                    forall|k: int|
                        0 <= k < p ==> accounts[#[trigger] sorted@[k] as int].1.balance
                            >= accounts[i as int].1.balance,
                decreases sorted@.len() - p,
            {
                p += 1;
            }
            let ghost before = sorted@;
            sorted.insert(p, i);
            proof {
                let after = sorted@;
                assert forall|k: int, l: int| 0 <= k < l < after.len() implies outranks(
                    accounts,
                    after[k] as int,
                    after[l] as int,
                ) by {
                    if l < p {
                        assert(after[k] == before[k] && after[l] == before[l]);
                    } else if l == p {
                        assert(after[k] == before[k]);
                        assert(before[k] < i);
                    } else if k < p {
                        assert(after[k] == before[k] && after[l] == before[l - 1]);
                    } else if k == p {
                        assert(after[l] == before[l - 1]);
                        if p < l - 1 {
                            assert(outranks(accounts, before[p as int] as int, before[l - 1] as int));
                        }
                    } else {
                        assert(after[k] == before[k - 1] && after[l] == before[l - 1]);
                    }
                }
                assert forall|k: int| 0 <= k < after.len() implies #[trigger] after[k] < i + 1 by {
                    if k < p {
                        assert(after[k] == before[k]);
                    } else if k > p {
                        assert(after[k] == before[k - 1]);
                    }
                }
            }
            i += 1;
        }
        sorted
    }

    /// The accounts from rank `offset` on, `limit` of them, each with its
    /// balance; `None` when the store has fewer than `offset + limit`
    /// accounts.
    pub fn top_accounts(&self, offset: usize, limit: usize) -> (r: Option<Vec<(Address, U256)>>)
        requires
            self.wf(),
        ensures
            r is Some <==> offset + limit <= self.spec_len(),
            r matches Some(top) ==> exists|ranking: Seq<usize>|
                is_ranking(self.order(), ranking) && is_page(
                    self.order(),
                    ranking,
                    offset as int,
                    limit as int,
                    top@,
                ),
    {
        if offset > self.entries.len() || limit > self.entries.len() - offset {
            return None;
        }
        let ranking = self.ranking();
        let total: usize = self.entries.len();
        let mut top: Vec<(Address, U256)> = Vec::new();
        let mut k: usize = 0;
        while k < limit
            invariant
                k <= limit,
                offset + limit <= total,
                total == self.entries@.len(),
                is_ranking(self.order(), ranking@),
                top@.len() == k,
                forall|j: int|
                    0 <= j < k ==> (#[trigger] top@[j]).0@ == self.order()[ranking@[offset
                        + j] as int].0 && top@[j].1@ == self.order()[ranking@[offset
                        + j] as int].1.balance,
            decreases limit - k,
        {
            let index = ranking[offset + k];
            assert(ranking@[offset + k] < self.order().len());
            let entry = self.entries[index];
            top.push((entry.0, entry.1.balance));
            k += 1;
        }
        assert(is_page(self.order(), ranking@, offset as int, limit as int, top@));
        Some(top)
    }

    /// The genesis state with its second and third accounts at the given
    /// addresses.
    pub fn genesis_state_with(second: Address, third: Address) -> (state: WorldState)
        ensures
            state.wf(),
            state@ == spec_genesis_state(second@, third@),
    {
        let first = Address {
            bytes: [
                0xe9, 0x4c, 0x35, 0xa6, 0xa3, 0x2c, 0x75, 0x98, 0x65, 0xdc,
                0x49, 0x80, 0x7f, 0x0a, 0xd3, 0x05, 0x68, 0x48, 0xc8, 0xbf,
            ],
        };
        assert(first@ =~= genesis_address());
        let mut state = WorldState::new();
        state.insert(first, AccountState::new(U256::from_u128(42 * ONE_ETHER)));
        state.insert(second, AccountState::new(U256::from_u128(420 * ONE_ETHER)));
        state.insert(third, AccountState::new(U256::from_u128(4200 * ONE_ETHER)));
        state
    }

    /// The genesis state with its second and third accounts at addresses
    /// drawn at random.
    pub fn genesis_state() -> (state: WorldState)
        ensures
            state.wf(),
            exists|second: Seq<u8>, third: Seq<u8>| state@ == spec_genesis_state(second, third),
    {
        let second = Address::random();
        let third = Address::random();
        WorldState::genesis_state_with(second, third)
    }
}

impl Default for WorldState {
    fn default() -> (state: WorldState)
        ensures
            state.wf(),
            state@ == Map::<Seq<u8>, AccountView>::empty(),
    {
        WorldState::new()
    }
}

/// Crediting an account that owns nothing sets its balance to the amount
/// and touches no other account. When the amount is not zero, a second
/// credit of the same account is refused and changes nothing: of two
/// credits in a row exactly the first one takes effect.
pub proof fn lemma_credit_once(state: Map<Seq<u8>, AccountView>, address: Seq<u8>, amount: nat)
    requires
        eligible_for_credit(state, address),
        amount != 0,
    ensures
        spec_credit(state, address, amount)[address].balance == amount,
        forall|other: Seq<u8>|
            other != address ==> (spec_credit(state, address, amount).dom().contains(other)
                <==> state.dom().contains(other)),
        forall|other: Seq<u8>|
            other != address && state.dom().contains(other) ==> spec_credit(state, address, amount)[other]
                == state[other],
        !eligible_for_credit(spec_credit(state, address, amount), address),
        spec_credit(spec_credit(state, address, amount), address, amount) == spec_credit(
            state,
            address,
            amount,
        ),
{
}

} // verus!
