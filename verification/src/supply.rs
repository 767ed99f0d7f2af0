//! The balances of all accounts together, and what the operations on the world state do
//! to them.

use crate::state::{AccountView, StateView};
use crate::uint::{lemma_word_add, lemma_word_sub, two_256, word_add, word_sub};
use vstd::prelude::*;

verus! {

/// The sum of the balances of the accounts in a map.
pub open spec fn balances(accounts: Map<Seq<u8>, AccountView>) -> nat
    decreases accounts.dom().len(),
{
    if accounts.dom().finite() && accounts.dom().len() > 0 {
        let a = accounts.dom().choose();
        accounts[a].balance + balances(accounts.remove(a))
    } else {
        0
    }
}

impl StateView {
    /// The sum of all balances.
    pub open spec fn supply(self) -> nat {
        balances(self.accounts)
    }

    /// Finitely many accounts exist, and each balance is a word. Every state is like this.
    pub open spec fn well_formed(self) -> bool {
        &&& self.accounts.dom().finite()
        &&& forall|a: Seq<u8>| #[trigger] self.balance(a) < two_256()
    }

    /// Finitely many accounts exist, and all balances together fit into a word.
    pub open spec fn sound(self) -> bool {
        &&& self.accounts.dom().finite()
        &&& self.supply() < two_256()
    }

    /// Whether a transfer makes the balance that it credits overflow.
    pub open spec fn overflows(self, from: Seq<u8>, to: Seq<u8>, amount: nat) -> bool {
        self.sub_balance(from, amount).balance(to) + amount >= two_256()
    }
}

/// The sum is the same whichever account is counted first.
proof fn lemma_count_first(accounts: Map<Seq<u8>, AccountView>, a: Seq<u8>)
    requires
        accounts.dom().finite(),
        accounts.contains_key(a),
    ensures
        balances(accounts) == accounts[a].balance + balances(accounts.remove(a)),
    decreases accounts.dom().len(),
{
    let c = accounts.dom().choose();
    assert(accounts.dom().contains(a));
    assert(accounts.dom().len() > 0);
    assert(accounts.dom().contains(c));
    if a != c {
        lemma_count_first(accounts.remove(c), a);
        lemma_count_first(accounts.remove(a), c);
        assert(accounts.remove(c).remove(a) =~= accounts.remove(a).remove(c));
    }
}

/// Replacing an account changes the supply by the difference of the two balances, and no
/// account holds more than the supply.
pub proof fn lemma_supply_set(state: StateView, a: Seq<u8>, account: AccountView)
    requires
        state.accounts.dom().finite(),
    ensures
        state.balance(a) <= state.supply(),
        state.set(a, account).accounts.dom().finite(),
        state.set(a, account).supply() == state.supply() - state.balance(a) + account.balance,
{
    let after = state.set(a, account);
    lemma_count_first(after.accounts, a);
    if state.account_exists(a) {
        lemma_count_first(state.accounts, a);
        assert(after.accounts.remove(a) =~= state.accounts.remove(a));
    } else {
        assert(after.accounts.remove(a) =~= state.accounts);
    }
}

/// Where all balances together fit into a word, each of them does.
pub proof fn law_sound_is_well_formed(state: StateView)
    requires
        state.sound(),
    ensures
        state.well_formed(),
{
    assert forall|a: Seq<u8>| #[trigger] state.balance(a) < two_256() by {
        lemma_supply_set(state, a, state.account(a));
    }
}

/// Adding to a balance adds as much to the supply, but for `2^256` that is lost if the balance
/// overflows.
pub proof fn law_add_balance_supply(state: StateView, a: Seq<u8>, amount: nat)
    requires
        state.well_formed(),
        amount < two_256(),
    ensures
        state.add_balance(a, amount).well_formed(),
        state.balance(a) + amount < two_256() ==> {
            &&& state.add_balance(a, amount).balance(a) == state.balance(a) + amount
            &&& state.add_balance(a, amount).supply() == state.supply() + amount
        },
        state.balance(a) + amount >= two_256() ==> state.add_balance(a, amount).supply()
            == state.supply() + amount - two_256(),
{
    let account = AccountView { balance: word_add(state.balance(a), amount), ..state.account(a) };
    lemma_supply_set(state, a, account);
    lemma_word_add(state.balance(a), amount);
    let after = state.add_balance(a, amount);
    assert forall|b: Seq<u8>| #[trigger] after.balance(b) < two_256() by {
        assert(state.balance(b) < two_256());
    }
}

/// Taking what an account has from its balance takes as much from the supply.
pub proof fn law_sub_balance_supply(state: StateView, a: Seq<u8>, amount: nat)
    requires
        state.well_formed(),
        amount <= state.balance(a),
    ensures
        state.sub_balance(a, amount).well_formed(),
        state.sub_balance(a, amount).balance(a) == state.balance(a) - amount,
        state.sub_balance(a, amount).supply() == state.supply() - amount,
{
    let account = AccountView { balance: word_sub(state.balance(a), amount), ..state.account(a) };
    lemma_supply_set(state, a, account);
    lemma_word_sub(state.balance(a), amount);
    let after = state.sub_balance(a, amount);
    assert forall|b: Seq<u8>| #[trigger] after.balance(b) < two_256() by {
        assert(state.balance(b) < two_256());
    }
}

/// A transfer that the sender can pay makes no value, and destroys none unless the balance that
/// it credits overflows. Where all balances together fit into a word, none does.
pub proof fn law_transfer_keeps_supply(state: StateView, from: Seq<u8>, to: Seq<u8>, amount: nat)
    requires
        state.well_formed(),
        amount <= state.balance(from),
    ensures
        ({
            let after = state.transfer_balance(from, to, amount);
            &&& after.well_formed()
            &&& state.sound() ==> !state.overflows(from, to, amount)
            &&& state.overflows(from, to, amount) ==> after.supply() == state.supply() - two_256()
            &&& !state.overflows(from, to, amount) ==> {
                &&& after.supply() == state.supply()
                &&& from != to ==> after.balance(from) == state.balance(from) - amount
                &&& from != to ==> after.balance(to) == state.balance(to) + amount
                &&& from == to ==> after.balance(to) == state.balance(to)
            }
        }),
{
    assert(state.balance(from) < two_256());
    law_sub_balance_supply(state, from, amount);
    let middle = state.sub_balance(from, amount);
    law_add_balance_supply(middle, to, amount);
    lemma_supply_set(middle, to, middle.account(to));
}

/// Nonces, code and storage are no value: changing them keeps the supply and every balance.
pub proof fn law_bookkeeping_keeps_supply(
    state: StateView,
    a: Seq<u8>,
    b: Seq<u8>,
    key: Seq<u8>,
    value: Seq<u8>,
    code: Seq<u8>,
)
    requires
        state.well_formed(),
    ensures
        state.inc_nonce(a).well_formed(),
        state.inc_nonce(a).supply() == state.supply(),
        state.inc_nonce(a).balance(b) == state.balance(b),
        state.set_storage(a, key, value).well_formed(),
        state.set_storage(a, key, value).supply() == state.supply(),
        state.set_storage(a, key, value).balance(b) == state.balance(b),
        state.init_code(a, code).well_formed(),
        state.init_code(a, code).supply() == state.supply(),
        state.init_code(a, code).balance(b) == state.balance(b),
        state.new_contract(a).well_formed(),
        state.new_contract(a).supply() == state.supply(),
        state.new_contract(a).balance(b) == state.balance(b),
{
    lemma_supply_set(
        state,
        a,
        AccountView { nonce: word_add(state.nonce(a), 1), ..state.account(a) },
    );
    lemma_supply_set(
        state,
        a,
        AccountView { storage: state.account(a).storage.insert(key, value), ..state.account(a) },
    );
    lemma_supply_set(state, a, AccountView { code, ..state.account(a) });
    lemma_supply_set(state, a, AccountView { code: Seq::empty(), ..state.account(a) });
    assert forall|b: Seq<u8>| #[trigger] state.inc_nonce(a).balance(b) < two_256() by {
        assert(state.balance(b) < two_256());
    }
    assert forall|b: Seq<u8>| #[trigger] state.set_storage(a, key, value).balance(b) < two_256() by {
        assert(state.balance(b) < two_256());
    }
    assert forall|b: Seq<u8>| #[trigger] state.init_code(a, code).balance(b) < two_256() by {
        assert(state.balance(b) < two_256());
    }
    assert forall|b: Seq<u8>| #[trigger] state.new_contract(a).balance(b) < two_256() by {
        assert(state.balance(b) < two_256());
    }
}

/// Removing an account takes its balance from the supply.
pub proof fn law_kill_supply(state: StateView, a: Seq<u8>)
    requires
        state.accounts.dom().finite(),
    ensures
        state.kill_account(a).accounts.dom().finite(),
        state.kill_account(a).supply() == state.supply() - state.balance(a),
{
    if state.account_exists(a) {
        lemma_count_first(state.accounts, a);
    } else {
        assert(state.accounts.remove(a) =~= state.accounts);
    }
}

/// Removing finitely many accounts never adds to the supply, and keeps it where none of them
/// has anything.
proof fn lemma_kill_finitely_many(state: StateView, dead: Set<Seq<u8>>)
    requires
        state.accounts.dom().finite(),
        dead.finite(),
    ensures
        state.kill_accounts(dead).accounts.dom().finite(),
        state.kill_accounts(dead).supply() <= state.supply(),
        (forall|a: Seq<u8>| dead.contains(a) ==> #[trigger] state.balance(a) == 0)
            ==> state.kill_accounts(dead).supply() == state.supply(),
    decreases dead.len(),
{
    if dead.len() == 0 {
        assert(dead =~= Set::empty());
        assert(state.accounts.remove_keys(dead) =~= state.accounts);
    } else {
        let a = dead.choose();
        let fewer = dead.remove(a);
        law_kill_supply(state, a);
        lemma_kill_finitely_many(state.kill_account(a), fewer);
        assert(state.kill_account(a).accounts.remove_keys(fewer) =~= state.accounts.remove_keys(
            dead,
        ));
        if forall|b: Seq<u8>| dead.contains(b) ==> #[trigger] state.balance(b) == 0 {
            assert(state.balance(a) == 0);
            assert forall|b: Seq<u8>| fewer.contains(b) implies #[trigger] state.kill_account(
                a,
            ).balance(b) == 0 by {
                assert(state.balance(b) == 0);
            }
        }
    }
}

/// Removing accounts never adds to the supply, and keeps it where none of them has anything.
pub proof fn law_kill_accounts_supply(state: StateView, dead: Set<Seq<u8>>)
    requires
        state.accounts.dom().finite(),
    ensures
        state.kill_accounts(dead).accounts.dom().finite(),
        state.kill_accounts(dead).supply() <= state.supply(),
        (forall|a: Seq<u8>| dead.contains(a) ==> #[trigger] state.balance(a) == 0)
            ==> state.kill_accounts(dead).supply() == state.supply(),
{
    let known = dead.intersect(state.accounts.dom());
    vstd::set_lib::lemma_set_subset_finite(state.accounts.dom(), known);
    lemma_kill_finitely_many(state, known);
    assert(state.accounts.remove_keys(known) =~= state.accounts.remove_keys(dead));
}

} // verus!
