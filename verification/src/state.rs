//! The world state: accounts by address, each with a nonce, a balance, code and
//! storage.
//!
//! Balances and nonces are words, so their arithmetic is modulo `2^256`. An
//! operation that changes an account that does not exist yet starts from the
//! empty one.

use crate::bytes::copy_bytes;
use crate::hash::{zero_hash, Address, H256};
use crate::table::{Table, Value};
use crate::uint::{two_256, word_add, word_sub, U256};
use vstd::prelude::*;

verus! {

/// What an account holds.
#[verifier::ext_equal]
pub ghost struct AccountView {
    pub nonce: nat,
    pub balance: nat,
    pub code: Seq<u8>,
    pub storage: Map<Seq<u8>, Seq<u8>>,
}

impl AccountView {
    /// The account that nothing has happened to.
    pub open spec fn empty() -> AccountView {
        AccountView { nonce: 0, balance: 0, code: Seq::empty(), storage: Map::empty() }
    }
}

/// What the world state holds: the accounts that exist, by address.
#[verifier::ext_equal]
pub ghost struct StateView {
    pub accounts: Map<Seq<u8>, AccountView>,
}

impl StateView {
    pub open spec fn account_exists(self, a: Seq<u8>) -> bool {
        self.accounts.contains_key(a)
    }

    /// The account at an address, the empty one where none exists.
    pub open spec fn account(self, a: Seq<u8>) -> AccountView {
        if self.account_exists(a) {
            self.accounts[a]
        } else {
            AccountView::empty()
        }
    }

    pub open spec fn balance(self, a: Seq<u8>) -> nat {
        self.account(a).balance
    }

    pub open spec fn nonce(self, a: Seq<u8>) -> nat {
        self.account(a).nonce
    }

    pub open spec fn code(self, a: Seq<u8>) -> Seq<u8> {
        self.account(a).code
    }

    /// The value in a storage slot, zero where nothing was stored.
    pub open spec fn storage_at(self, a: Seq<u8>, key: Seq<u8>) -> Seq<u8> {
        let storage = self.account(a).storage;
        if storage.contains_key(key) {
            storage[key]
        } else {
            zero_hash()
        }
    }

    /// The state in which the account at `a` is `account`.
    pub open spec fn set(self, a: Seq<u8>, account: AccountView) -> StateView {
        StateView { accounts: self.accounts.insert(a, account) }
    }

    pub open spec fn inc_nonce(self, a: Seq<u8>) -> StateView {
        self.set(a, AccountView { nonce: word_add(self.nonce(a), 1), ..self.account(a) })
    }

    pub open spec fn add_balance(self, a: Seq<u8>, amount: nat) -> StateView {
        self.set(a, AccountView { balance: word_add(self.balance(a), amount), ..self.account(a) })
    }

    pub open spec fn sub_balance(self, a: Seq<u8>, amount: nat) -> StateView {
        self.set(a, AccountView { balance: word_sub(self.balance(a), amount), ..self.account(a) })
    }

    pub open spec fn transfer_balance(self, from: Seq<u8>, to: Seq<u8>, amount: nat) -> StateView {
        self.sub_balance(from, amount).add_balance(to, amount)
    }

    pub open spec fn set_storage(self, a: Seq<u8>, key: Seq<u8>, value: Seq<u8>) -> StateView {
        self.set(
            a,
            AccountView { storage: self.account(a).storage.insert(key, value), ..self.account(a) },
        )
    }

    pub open spec fn init_code(self, a: Seq<u8>, code: Seq<u8>) -> StateView {
        self.set(a, AccountView { code, ..self.account(a) })
    }

    /// An account that exists already only loses its code.
    pub open spec fn new_contract(self, a: Seq<u8>) -> StateView {
        self.init_code(a, Seq::empty())
    }

    pub open spec fn kill_account(self, a: Seq<u8>) -> StateView {
        StateView { accounts: self.accounts.remove(a) }
    }

    /// The state without the accounts in a set.
    pub open spec fn kill_accounts(self, dead: Set<Seq<u8>>) -> StateView {
        StateView { accounts: self.accounts.remove_keys(dead) }
    }
}

/// An account.
pub struct Account {
    nonce: U256,
    balance: U256,
    code: Vec<u8>,
    storage: Table<H256, H256>,
}

impl View for Account {
    type V = AccountView;

    closed spec fn view(&self) -> AccountView {
        AccountView {
            nonce: self.nonce@,
            balance: self.balance@,
            code: self.code@,
            storage: self.storage@,
        }
    }
}

impl Value for Account {
    fn duplicate(&self) -> (copy: Self) {
        Account {
            nonce: self.nonce,
            balance: self.balance,
            code: copy_bytes(self.code.as_slice()),
            storage: self.storage.duplicate(),
        }
    }
}

/// The world state.
pub struct State {
    accounts: Table<Address, Account>,
}

impl View for State {
    type V = StateView;

    closed spec fn view(&self) -> StateView {
        StateView { accounts: self.accounts@ }
    }
}

impl Clone for State {
    fn clone(&self) -> (copy: Self)
        ensures
            copy@ == self@,
    {
        State { accounts: self.accounts.duplicate() }
    }
}

impl State {
    /// A state without accounts.
    pub fn new_temp() -> (state: State)
        ensures
            state@ == (StateView { accounts: Map::empty() }),
    {
        State { accounts: Table::new() }
    }

    /// Finitely many accounts exist, and each balance is a word.
    pub proof fn law_well_formed(&self)
        ensures
            self@.well_formed(),
    {
        self.accounts.lemma_finite();
        assert forall|a: Seq<u8>| #[trigger] self@.balance(a) < two_256() by {
            if self@.account_exists(a) {
                let account = self.accounts.lemma_value(a);
            }
        }
    }

    /// Whether an account exists at the address.
    pub fn account_exists(&self, a: &Address) -> (found: bool)
        ensures
            found == self@.account_exists(a@),
    {
        self.accounts.get(a).is_some()
    }

    /// The balance of an account, zero where none exists.
    pub fn balance(&self, a: &Address) -> (balance: U256)
        ensures
            balance@ == self@.balance(a@),
    {
        match self.accounts.get(a) {
            Some(account) => account.balance,
            None => U256::zero(),
        }
    }

    /// The nonce of an account, zero where none exists.
    pub fn nonce(&self, a: &Address) -> (nonce: U256)
        ensures
            nonce@ == self@.nonce(a@),
    {
        match self.accounts.get(a) {
            Some(account) => account.nonce,
            None => U256::zero(),
        }
    }

    /// The code of an account that exists.
    pub fn code(&self, a: &Address) -> (code: Option<Vec<u8>>)
        ensures
            code is Some == self@.account_exists(a@),
            code matches Some(bytes) ==> bytes@ == self@.code(a@),
    {
        match self.accounts.get(a) {
            Some(account) => Some(copy_bytes(account.code.as_slice())),
            None => None,
        }
    }

    /// The value in a storage slot of an account, zero where nothing was stored.
    pub fn storage_at(&self, a: &Address, key: &H256) -> (value: H256)
        ensures
            value@ == self@.storage_at(a@, key@),
    {
        match self.accounts.get(a) {
            Some(account) => match account.storage.get(key) {
                Some(value) => *value,
                None => H256::new(),
            },
            None => H256::new(),
        }
    }

    /// Takes the account at an address out of the state, the empty one where none
    /// exists.
    fn take(&mut self, a: &Address) -> (account: Account)
        ensures
            account@ == old(self)@.account(a@),
            final(self)@ == old(self)@.kill_account(a@),
    {
        match self.accounts.take(a) {
            Some(account) => account,
            None => Account {
                nonce: U256::zero(),
                balance: U256::zero(),
                code: Vec::new(),
                storage: Table::new(),
            },
        }
    }

    /// Puts an account into the state.
    fn put(&mut self, a: &Address, account: Account)
        ensures
            final(self)@ == old(self)@.set(a@, account@),
    {
        self.accounts.insert(a, account);
    }

    /// Adds one to the nonce of an account.
    pub fn inc_nonce(&mut self, a: &Address)
        ensures
            final(self)@ == old(self)@.inc_nonce(a@),
    {
        let mut account: Account = self.take(a);
        account.nonce = account.nonce.wrapping_add(U256::one());
        self.put(a, account);
        assert(self@ =~= old(self)@.inc_nonce(a@));
    }

    /// Adds to the balance of an account.
    pub fn add_balance(&mut self, a: &Address, amount: &U256)
        ensures
            final(self)@ == old(self)@.add_balance(a@, amount@),
    {
        let mut account: Account = self.take(a);
        account.balance = account.balance.wrapping_add(*amount);
        self.put(a, account);
        assert(self@ =~= old(self)@.add_balance(a@, amount@));
    }

    /// Takes from the balance of an account.
    pub fn sub_balance(&mut self, a: &Address, amount: &U256)
        ensures
            final(self)@ == old(self)@.sub_balance(a@, amount@),
    {
        let mut account: Account = self.take(a);
        account.balance = account.balance.wrapping_sub(*amount);
        self.put(a, account);
        assert(self@ =~= old(self)@.sub_balance(a@, amount@));
    }

    /// Moves value from one account to another.
    pub fn transfer_balance(&mut self, from: &Address, to: &Address, amount: &U256)
        ensures
            final(self)@ == old(self)@.transfer_balance(from@, to@, amount@),
    {
        self.sub_balance(from, amount);
        self.add_balance(to, amount);
    }

    /// Puts a value into a storage slot of an account.
    pub fn set_storage(&mut self, a: &Address, key: H256, value: H256)
        ensures
            final(self)@ == old(self)@.set_storage(a@, key@, value@),
    {
        let mut account: Account = self.take(a);
        account.storage.insert(&key, value);
        self.put(a, account);
        assert(self@ =~= old(self)@.set_storage(a@, key@, value@));
    }

    /// Sets the code of an account.
    pub fn init_code(&mut self, a: &Address, code: Vec<u8>)
        ensures
            final(self)@ == old(self)@.init_code(a@, code@),
    {
        let mut account: Account = self.take(a);
        account.code = code;
        self.put(a, account);
        assert(self@ =~= old(self)@.init_code(a@, code@));
    }

    /// Creates an account that is ready for its code. An account that exists
    /// already has its code reset.
    pub fn new_contract(&mut self, a: &Address)
        ensures
            final(self)@ == old(self)@.new_contract(a@),
    {
        self.init_code(a, Vec::new());
    }

    /// Removes an account.
    pub fn kill_account(&mut self, a: &Address)
        ensures
            final(self)@ == old(self)@.kill_account(a@),
    {
        let _ = self.accounts.take(a);
    }

    /// Goes back to an earlier state.
    pub fn revert(&mut self, backup: State)
        ensures
            final(self)@ == backup@,
    {
        *self = backup;
    }
}

} // verus!
