//! What holds of executions as a whole.

use crate::engine::Engine;
use crate::env::{EnvInfo, Schedule};
use crate::error::{Error, ExecutionError};
use crate::evm::{self, Evm, EvmResult};
use crate::executive::{
    accepted, called, called_freely, charged, created, earned_refund, executed, failure_receipt,
    finalized, paid_out, refund, transacted, transaction_params, Executed, ExecutedView, ExecutionResult,
    World,
};
use crate::externalities::ExtView;
use crate::hash::zero_hash;
use crate::machine::{
    call_tallied, creation_tallied, frugal, law_call_tallies, law_creation_tallies, lemma_call,
    lemma_creation, lemma_losses, through_externalities, Tally,
};
use crate::output::OutputView;
use crate::state::StateView;
use crate::substate::SubstateView;
use crate::supply::{
    law_add_balance_supply, law_bookkeeping_keeps_supply, law_kill_accounts_supply,
    law_sub_balance_supply, law_transfer_keeps_supply, lemma_supply_set,
};
use crate::transaction::{Action, ParamsView, Transaction};
use crate::uint::{
    lemma_word_add, lemma_word_sub, lesser, two_256, word_add, word_mul, word_sub, U256,
};
use vstd::prelude::*;

verus! {

/// The refund of a run that left no more gas than it was given is at least what it left
/// and at most what it was given.
pub proof fn law_refund_bounds(
    schedule: Schedule,
    substate: SubstateView,
    gas: nat,
    gas_left: nat,
)
    requires
        gas_left <= gas < two_256(),
    ensures
        gas_left <= refund(schedule, substate, gas, gas_left) <= gas,
        refund(schedule, substate, gas, gas_left) - gas_left <= (gas - gas_left) / 2,
        refund(schedule, substate, gas, gas_left) - gas_left <= earned_refund(schedule, substate),
{
    lemma_word_sub(gas, gas_left);
    let extra = lesser(earned_refund(schedule, substate), word_sub(gas, gas_left) / 2);
    lemma_word_add(extra, gas_left);
}

/// The gas refunded and the gas used add up to the gas that was paid for up front: modulo
/// `2^256` in any case, and as numbers if the machine left no more gas than the transaction
/// came with. The gas used counts towards the block.
pub proof fn law_receipt_adds_up(
    schedule: Schedule,
    info: EnvInfo,
    t: Transaction,
    substate: SubstateView,
    result: EvmResult,
    before: StateView,
    after: StateView,
    receipt: Executed,
)
    requires
        finalized(
            schedule,
            info,
            t,
            substate,
            result,
            before,
            after,
            Ok::<Executed, ExecutionError>(receipt),
        ),
    ensures
        receipt.gas@ == t.gas@,
        word_add(receipt.refunded@, receipt.gas_used@) == receipt.gas@,
        (result matches Ok(gas_left) ==> gas_left@ <= t.gas@) ==> receipt.refunded@
            + receipt.gas_used@ == receipt.gas@,
        receipt.cumulative_gas_used@ == word_add(info.gas_used@, receipt.gas_used@),
{
    lemma_word_add(receipt.refunded@, receipt.gas_used@);
    match result {
        Ok(gas_left) => {
            lemma_word_sub(t.gas@, receipt.refunded@);
            if gas_left@ <= t.gas@ {
                law_refund_bounds(schedule, substate, t.gas@, gas_left@);
            }
        },
        Err(_) => {},
    }
}

/// The gas that a list of receipts has used together.
pub open spec fn sum_gas_used(receipts: Seq<ExecutedView>) -> nat
    decreases receipts.len(),
{
    if receipts.len() == 0 {
        0
    } else {
        sum_gas_used(receipts.drop_last()) + receipts.last().gas_used
    }
}

/// Where each transaction of a block starts from the gas that the one before it has
/// accumulated, and the first from none, the cumulative gas is the sum of the gas used so far
/// (modulo `2^256`).
#[verifier::spinoff_prover]
#[verifier::rlimit(40)]
pub proof fn law_cumulative_gas(receipts: Seq<ExecutedView>)
    requires
        receipts.len() > 0,
        receipts[0].cumulative_gas_used == word_add(0, receipts[0].gas_used),
        forall|i: int|
            0 < i < receipts.len() ==> (#[trigger] receipts[i]).cumulative_gas_used == word_add(
                receipts[i - 1].cumulative_gas_used,
                receipts[i].gas_used,
            ),
    ensures
        receipts.last().cumulative_gas_used == sum_gas_used(receipts) % two_256(),
    decreases receipts.len(),
{
    reveal(word_add);
    let fewer = receipts.drop_last();
    if fewer.len() > 0 {
        assert forall|i: int| 0 < i < fewer.len() implies (#[trigger] fewer[i]).cumulative_gas_used
            == word_add(fewer[i - 1].cumulative_gas_used, fewer[i].gas_used) by {
            assert(receipts[i] == fewer[i]);
        }
        law_cumulative_gas(fewer);
        assert(receipts[receipts.len() - 1].cumulative_gas_used == word_add(
            receipts[receipts.len() - 2].cumulative_gas_used,
            receipts[receipts.len() - 1].gas_used,
        ));
    } else {
        assert(sum_gas_used(fewer) == 0);
    }
}

/// A call that runs out of gas leaves the world state as it was, and is noted in the
/// substate.
pub proof fn law_call_out_of_gas<E: Engine, V: Evm<E>>(
    vm: V,
    engine: E,
    info: EnvInfo,
    depth: nat,
    params: ParamsView,
    before: World,
    output: OutputView,
    after: World,
    returned: OutputView,
)
    requires
        called(
            vm,
            engine,
            info,
            depth,
            params,
            before,
            output,
            after,
            returned,
            Err::<U256, evm::Error>(evm::Error::OutOfGas),
        ),
    ensures
        after.state == before.state,
        after.substate.out_of_gas,
{
}

/// A creation that runs out of gas leaves the world state as it was, and is noted in the
/// substate.
pub proof fn law_creation_out_of_gas<E: Engine, V: Evm<E>>(
    vm: V,
    engine: E,
    info: EnvInfo,
    depth: nat,
    params: ParamsView,
    before: World,
    after: World,
)
    requires
        created(
            vm,
            engine,
            info,
            depth,
            params,
            before,
            after,
            Err::<U256, evm::Error>(evm::Error::OutOfGas),
        ),
    ensures
        after.state == before.state,
        after.substate.out_of_gas,
{
}

/// A storage slot gives back what was stored in it last, whatever is stored in others, and
/// storing touches no other account.
pub proof fn law_storage_reads_back(
    ext: ExtView,
    key: Seq<u8>,
    value: Seq<u8>,
    other: Seq<u8>,
    account: Seq<u8>,
)
    ensures
        ext.sstore(key, value).sload(key) == value,
        other != key ==> ext.sstore(key, value).sload(other) == ext.sload(other),
        account != ext.params.address ==> ext.sstore(key, value).state.account(account)
            == ext.state.account(account),
        ext.sstore(key, value).state.balance(account) == ext.state.balance(account),
{
}

/// Clearing a storage slot earns one refund, and clearing it again none.
pub proof fn law_clearing_earns_once(ext: ExtView, key: Seq<u8>)
    requires
        ext.sload(key) != zero_hash(),
    ensures
        ext.sstore(key, zero_hash()).substate.refunds_count == word_add(
            ext.substate.refunds_count,
            1,
        ),
        ext.sstore(key, zero_hash()).sstore(key, zero_hash()).substate.refunds_count
            == ext.sstore(key, zero_hash()).substate.refunds_count,
{
    law_storage_reads_back(ext, key, zero_hash(), key, key);
}

/// Contracts are listed in the order in which their creations end: where the code of one
/// creates another before it returns its own code, the other comes first.
pub proof fn law_creation_order(
    inner: ExtView,
    inner_gas: nat,
    inner_code: Seq<u8>,
    outer: ExtView,
    outer_gas: nat,
    outer_code: Seq<u8>,
)
    requires
        inner.init_contract,
        inner.code_price(inner_code) <= inner_gas,
        outer.init_contract,
        outer.code_price(outer_code) <= outer_gas,
    ensures
        outer.with_world(inner.returned(inner_gas, inner_code).world()).returned(
            outer_gas,
            outer_code,
        ).substate.contracts_created == inner.substate.contracts_created.push(
            inner.params.address,
        ).push(outer.params.address),
{
}

/// A fixed buffer keeps its size, and the bytes that the data does not reach; a flexible one
/// holds exactly the data.
pub proof fn law_returned_data(bytes: Seq<u8>, data: Seq<u8>)
    ensures
        OutputView::Fixed(bytes).written(data).bytes().len() == bytes.len(),
        forall|i: int|
            0 <= i < bytes.len() ==> #[trigger] OutputView::Fixed(bytes).written(data).bytes()[i]
                == if i < data.len() {
                data[i]
            } else {
                bytes[i]
            },
        OutputView::Flexible(bytes).written(data).bytes() == data,
{
}

/// An account that suicides in favour of another passes its whole balance on, and the supply
/// stays the same until the account is removed, unless the balance of the other overflows.
pub proof fn law_suicide(ext: ExtView, refund_address: Seq<u8>)
    requires
        ext.state.well_formed(),
        !ext.state.overflows(
            ext.params.address,
            refund_address,
            ext.state.balance(ext.params.address),
        ),
    ensures
        ext.suicide(refund_address).state.supply() == ext.state.supply(),
        ext.suicide(refund_address).substate.suicides.contains(ext.params.address),
        refund_address != ext.params.address ==> {
            &&& ext.suicide(refund_address).state.balance(ext.params.address) == 0
            &&& ext.suicide(refund_address).state.balance(refund_address) == ext.state.balance(
                refund_address,
            ) + ext.state.balance(ext.params.address)
        },
{
    law_transfer_keeps_supply(
        ext.state,
        ext.params.address,
        refund_address,
        ext.state.balance(ext.params.address),
    );
}

/// The accounts that suicided do not exist once the transaction is finalized, and the code
/// and storage of every other account are what they were.
pub proof fn law_suicides_removed(
    state: StateView,
    schedule: Schedule,
    author: Seq<u8>,
    sender: Seq<u8>,
    gas: nat,
    gas_price: nat,
    substate: SubstateView,
    gas_left: nat,
    a: Seq<u8>,
)
    ensures
        ({
            let after = paid_out(
                state,
                schedule,
                author,
                sender,
                gas,
                gas_price,
                substate,
                gas_left,
            );
            &&& substate.suicides.contains(a) ==> !after.account_exists(a)
            &&& !substate.suicides.contains(a) ==> after.code(a) == state.code(a)
                && after.account(a).storage == state.account(a).storage && after.nonce(a)
                == state.nonce(a)
        }),
{
}

/// The sender of an accepted transaction can pay for its gas and still has the value that it
/// transfers; the payment leaves every other balance alone.
pub proof fn law_charge_is_covered(state: StateView, info: EnvInfo, t: Transaction, a: Seq<u8>)
    requires
        state.well_formed(),
        accepted(state, info, t),
    ensures
        charged(state, t).well_formed(),
        t.gas@ * t.gas_price@ < two_256(),
        charged(state, t).supply() == state.supply() - t.gas@ * t.gas_price@,
        charged(state, t).balance(t.signer->0@) == state.balance(t.signer->0@) - t.gas@
            * t.gas_price@,
        charged(state, t).balance(t.signer->0@) >= t.value@,
        charged(state, t).nonce(t.signer->0@) == word_add(t.nonce@, 1),
        a != t.signer->0@ ==> charged(state, t).account(a) == state.account(a),
{
    let sender = t.signer->0@;
    assert(state.balance(sender) < two_256());
    law_bookkeeping_keeps_supply(state, sender, sender, sender, sender, sender);
    law_sub_balance_supply(state.inc_nonce(sender), sender, t.gas@ * t.gas_price@);
}

/// Whether two payments into a state, one after the other, make no balance overflow.
pub open spec fn credits_fit(
    state: StateView,
    a: Seq<u8>,
    first: nat,
    b: Seq<u8>,
    second: nat,
) -> bool {
    &&& state.balance(a) + first < two_256()
    &&& state.add_balance(a, first).balance(b) + second < two_256()
}

/// Finalizing hands the price of all the gas out again: what the sender and the author get
/// adds up to what the gas cost, modulo `2^256` in any case, and as numbers if no more gas is
/// refunded than there was and the credited balances have room. Only the removal of accounts
/// takes anything away.
pub proof fn law_finalizing_keeps_supply(
    state: StateView,
    schedule: Schedule,
    author: Seq<u8>,
    sender: Seq<u8>,
    gas: nat,
    gas_price: nat,
    substate: SubstateView,
    gas_left: nat,
)
    requires
        state.well_formed(),
        gas * gas_price < two_256(),
        gas < two_256(),
        gas_left < two_256(),
    ensures
        ({
            let after = paid_out(
                state,
                schedule,
                author,
                sender,
                gas,
                gas_price,
                substate,
                gas_left,
            );
            let refunded = refund(schedule, substate, gas, gas_left);
            let none = substate.suicides == Set::<Seq<u8>>::empty();
            let whole = state.supply() + gas * gas_price;
            &&& none ==> after.supply() % two_256() == whole % two_256()
            &&& refunded <= gas || gas_price == 0 ==> {
                &&& after.supply() <= whole
                &&& none && (whole < two_256() || credits_fit(
                    state,
                    sender,
                    word_mul(refunded, gas_price),
                    author,
                    word_mul(word_sub(gas, refunded), gas_price),
                )) ==> after.supply() == whole
            }
        }),
{
    let refunded = refund(schedule, substate, gas, gas_left);
    let first = word_mul(refunded, gas_price);
    let second = word_mul(word_sub(gas, refunded), gas_price);
    assert(refunded < two_256()) by {
        reveal(word_add);
    }
    assert(gas * gas_price >= 0) by (nonlinear_arith);
    lemma_shares(gas, refunded, gas_price);
    lemma_two_payments(state, sender, first, author, second);
    let paid = state.add_balance(sender, first).add_balance(author, second);
    law_kill_accounts_supply(paid, substate.suicides);
    assert(substate.suicides == Set::<Seq<u8>>::empty() ==> paid.accounts.remove_keys(
        substate.suicides,
    ) =~= paid.accounts);
}

/// Two payments into a state add as much to the supply as they are together, modulo `2^256`, and
/// as numbers where the credited balances have room.
proof fn lemma_two_payments(state: StateView, a: Seq<u8>, first: nat, b: Seq<u8>, second: nat)
    requires
        state.well_formed(),
        first < two_256(),
        second < two_256(),
    ensures
        ({
            let after = state.add_balance(a, first).add_balance(b, second);
            let whole = state.supply() + first + second;
            &&& after.well_formed()
            &&& after.supply() <= whole
            &&& after.supply() % two_256() == whole % two_256()
            &&& whole < two_256() || credits_fit(state, a, first, b, second) ==> after.supply()
                == whole
        }),
{
    let middle = state.add_balance(a, first);
    lemma_supply_set(state, a, state.account(a));
    law_add_balance_supply(state, a, first);
    lemma_supply_set(middle, b, middle.account(b));
    law_add_balance_supply(middle, b, second);
}

/// The prices of the refund and of the fees add up to the price of all the gas, modulo `2^256`
/// in any case, and as numbers if no more gas is refunded than there was.
proof fn lemma_shares(gas: nat, refunded: nat, gas_price: nat)
    requires
        gas < two_256(),
        refunded < two_256(),
        gas * gas_price < two_256(),
    ensures
        ({
            let first = word_mul(refunded, gas_price);
            let second = word_mul(word_sub(gas, refunded), gas_price);
            &&& first < two_256()
            &&& second < two_256()
            &&& (first + second) % two_256() == gas * gas_price
            &&& refunded <= gas || gas_price == 0 ==> first + second == gas * gas_price
        }),
{
    let fees = word_sub(gas, refunded);
    lemma_word_sub(gas, refunded);
    reveal(word_mul);
    let a = refunded * gas_price;
    let b = fees * gas_price;
    assert(a >= 0 && b >= 0) by (nonlinear_arith)
        requires
            a == refunded * gas_price,
            b == fees * gas_price,
    ;
    if refunded <= gas {
        assert(a + b == gas * gas_price) by (nonlinear_arith)
            requires
                refunded + fees == gas,
                a == refunded * gas_price,
                b == fees * gas_price,
        ;
    } else {
        assert(a + b == gas * gas_price + gas_price * two_256()) by (nonlinear_arith)
            requires
                refunded + fees == gas + two_256(),
                a == refunded * gas_price,
                b == fees * gas_price,
        ;
        if gas_price == 0 {
            assert(a == 0 && b == 0) by (nonlinear_arith)
                requires
                    gas_price == 0,
                    a == refunded * gas_price,
                    b == fees * gas_price,
            ;
        }
    }
}

/// A run that cleared no slot and removed no account earns nothing back.
pub proof fn lemma_nothing_earned(schedule: Schedule, gas: nat, gas_left: nat)
    requires
        gas_left <= gas < two_256(),
    ensures
        refund(schedule, SubstateView::empty(), gas, gas_left) == gas_left,
{
    reveal(word_mul);
    assert(schedule.sstore_refund_gas as nat * 0 == 0) by (nonlinear_arith);
    assert(schedule.suicide_refund_gas as nat * 0 == 0) by (nonlinear_arith);
    assert(Set::<Seq<u8>>::empty().len() == 0);
    lemma_word_add(0, 0);
    assert(earned_refund(schedule, SubstateView::empty()) == 0);
    lemma_word_add(0, gas_left);
}

/// What a transaction has gone through between its start and its end.
pub proof fn lemma_transacted<E: Engine, V: Evm<E>>(
    vm: V,
    engine: E,
    info: EnvInfo,
    depth: nat,
    t: Transaction,
    before: StateView,
    after: StateView,
    outcome: Result<Executed, Error>,
) -> (parts: (World, EvmResult, ExecutionResult))
    requires
        transacted(vm, engine, info, depth, t, before, after, outcome),
    ensures
        executed(vm, engine, info, depth, t, charged(before, t), parts.0, parts.1),
        finalized(
            engine.schedule_in(info),
            info,
            t,
            parts.0.substate,
            parts.1,
            parts.0.state,
            after,
            parts.2,
        ),
        outcome == match parts.2 {
            Ok(executed) => Ok::<Executed, Error>(executed),
            Err(error) => Err(Error::Execution(error)),
        },
{
    choose|world: World, result: EvmResult, receipt: ExecutionResult|
        {
            &&& #[trigger] executed(
                vm,
                engine,
                info,
                depth,
                t,
                charged(before, t),
                world,
                result,
            )
            &&& #[trigger] finalized(
                engine.schedule_in(info),
                info,
                t,
                world.substate,
                result,
                world.state,
                after,
                receipt,
            )
            &&& outcome == match receipt {
                Ok(executed) => Ok::<Executed, Error>(executed),
                Err(error) => Err(Error::Execution(error)),
            }
        }
}

/// What an account gets of a payment: its value, its fees, or both.
pub open spec fn received(
    a: Seq<u8>,
    to: Seq<u8>,
    author: Seq<u8>,
    value: nat,
    fees: nat,
) -> nat {
    (if a == to {
        value
    } else {
        0
    }) + (if a == author {
        fees
    } else {
        0
    })
}

/// Whether the accounts that a payment credits have room for it. Its sender, who pays as much,
/// always has.
pub open spec fn payment_fits(
    state: StateView,
    sender: Seq<u8>,
    to: Seq<u8>,
    author: Seq<u8>,
    value: nat,
    fees: nat,
) -> bool {
    &&& to != sender ==> state.balance(to) + received(to, to, author, value, fees) < two_256()
    &&& author != sender ==> state.balance(author) + received(author, to, author, value, fees)
        < two_256()
}

/// A transaction that calls an account without code is a payment, whatever the machine does: it
/// takes its nonce, uses the base gas, moves the value to the account and the fees to the author,
/// and changes nothing else. The balances are what they should be where those that are credited
/// have room.
pub proof fn law_plain_payment<E: Engine, V: Evm<E>>(
    vm: V,
    engine: E,
    info: EnvInfo,
    depth: nat,
    t: Transaction,
    before: StateView,
    after: StateView,
    outcome: Result<Executed, Error>,
)
    requires
        before.well_formed(),
        accepted(before, info, t),
        t.action matches Action::Call(to) && !engine.builtin_at(to@) && before.code(to@).len() == 0,
        t.base_gas(engine.schedule_in(info)) <= t.gas@,
        transacted(vm, engine, info, depth, t, before, after, outcome),
    ensures
        ({
            let base = t.base_gas(engine.schedule_in(info));
            &&& outcome matches Ok(receipt)
            &&& receipt.gas_used@ == base
            &&& receipt.refunded@ == t.gas@ - base
            &&& !receipt.out_of_gas
            &&& receipt.logs@.len() == 0
            &&& receipt.contracts_created@.len() == 0
        }),
        ({
            let sender = t.signer->0@;
            let to = t.action->Call_0@;
            let author = info.author@;
            forall|a: Seq<u8>|
                {
                    &&& (#[trigger] after.account(a)).nonce == if a == sender {
                        word_add(t.nonce@, 1)
                    } else {
                        before.nonce(a)
                    }
                    &&& after.account(a).code == before.code(a)
                    &&& after.account(a).storage == before.account(a).storage
                    &&& a != sender && a != to && a != author ==> {
                        &&& after.account(a) == before.account(a)
                        &&& after.account_exists(a) == before.account_exists(a)
                    }
                }
        }),
        ({
            let sender = t.signer->0@;
            let to = t.action->Call_0@;
            let author = info.author@;
            let value = t.value@;
            let fees = t.base_gas(engine.schedule_in(info)) * t.gas_price@;
            payment_fits(before, sender, to, author, value, fees) ==> {
                &&& after.supply() == before.supply()
                &&& forall|a: Seq<u8>| #[trigger]
                    after.balance(a) == before.balance(a) + received(a, to, author, value, fees)
                        - if a == sender {
                        value + fees
                    } else {
                        0
                    }
            }
        }),
{
    let schedule = engine.schedule_in(info);
    let base = t.base_gas(schedule);
    let sender = t.signer->0@;
    let to = t.action->Call_0@;
    let author = info.author@;
    let price = t.gas_price@;
    let start = charged(before, t);
    law_charge_is_covered(before, info, t, to);
    let (world, result, receipt) = lemma_transacted(
        vm,
        engine,
        info,
        depth,
        t,
        before,
        after,
        outcome,
    );
    lemma_word_sub(t.gas@, base);
    assert(start.code(to) == before.code(to));
    let paid = start.transfer_balance(sender, to, t.value@);
    assert(world == World { state: paid, substate: SubstateView::empty() });
    let left = (t.gas@ - base) as nat;
    assert(result matches Ok(gas_left) && gas_left@ == left);
    lemma_nothing_earned(schedule, t.gas@, left);
    lemma_word_sub(t.gas@, left);
    assert(left * price + base * price == t.gas@ * price) by (nonlinear_arith)
        requires
            left + base == t.gas@,
    ;
    assert(left * price >= 0 && base * price >= 0) by (nonlinear_arith);
    reveal(word_mul);
    assert(word_mul(left, price) == left * price);
    assert(word_mul(base, price) == base * price);
    let refunded = paid.add_balance(sender, left * price);
    let last = refunded.add_balance(author, base * price);
    assert(last.accounts.remove_keys(Set::<Seq<u8>>::empty()) =~= last.accounts);
    assert(after == last);
    let executed = receipt->Ok_0;
    assert(executed@.logs.len() == executed.logs@.len());
    assert(executed@.contracts_created.len() == executed.contracts_created@.len());
    if payment_fits(before, sender, to, author, t.value@, base * price) {
        lemma_payment(before, start, sender, to, author, t.value@, left * price, base * price);
    }
}

/// The balances after a payment whose credits have room.
proof fn lemma_payment(
    before: StateView,
    start: StateView,
    sender: Seq<u8>,
    to: Seq<u8>,
    author: Seq<u8>,
    value: nat,
    change: nat,
    fees: nat,
)
    requires
        before.well_formed(),
        start.well_formed(),
        start.supply() == before.supply() - change - fees,
        start.balance(sender) == before.balance(sender) - change - fees,
        start.balance(sender) >= value,
        forall|a: Seq<u8>| a != sender ==> #[trigger] start.balance(a) == before.balance(a),
        payment_fits(before, sender, to, author, value, fees),
    ensures
        ({
            let after = start.transfer_balance(sender, to, value).add_balance(
                sender,
                change,
            ).add_balance(author, fees);
            &&& after.supply() == before.supply()
            &&& forall|a: Seq<u8>| #[trigger]
                after.balance(a) == before.balance(a) + received(a, to, author, value, fees)
                    - if a == sender {
                    value + fees
                } else {
                    0
                }
        }),
{
    assert(before.balance(sender) < two_256());
    assert(to != sender ==> start.balance(to) == before.balance(to));
    assert(author != sender ==> start.balance(author) == before.balance(author));
    let paid = start.transfer_balance(sender, to, value);
    law_sub_balance_supply(start, sender, value);
    law_transfer_keeps_supply(start, sender, to, value);
    assert(!start.overflows(sender, to, value));
    law_add_balance_supply(paid, sender, change);
    let refunded = paid.add_balance(sender, change);
    assert(refunded.balance(sender) == paid.balance(sender) + change);
    law_add_balance_supply(refunded, author, fees);
    let after = refunded.add_balance(author, fees);
    assert(after.balance(author) == refunded.balance(author) + fees);
    assert forall|a: Seq<u8>| #[trigger]
        after.balance(a) == before.balance(a) + received(a, to, author, value, fees)
            - if a == sender {
            value + fees
        } else {
            0
        } by {
        assert(a != sender ==> start.balance(a) == before.balance(a));
        assert(a != sender && a != to ==> paid.balance(a) == start.balance(a));
        assert(a != sender ==> refunded.balance(a) == paid.balance(a));
        assert(a != author ==> after.balance(a) == refunded.balance(a));
    }
}

/// A run that runs out of gas costs the sender of its transaction all the gas that was paid for,
/// takes its nonce, and changes nothing else; the receipt says that all the gas was used.
pub proof fn law_one_run_out_of_gas<E: Engine, V: Evm<E>>(
    vm: V,
    engine: E,
    info: EnvInfo,
    depth: nat,
    t: Transaction,
    before: StateView,
    world: World,
    after: StateView,
    receipt: ExecutionResult,
)
    requires
        executed(
            vm,
            engine,
            info,
            depth,
            t,
            charged(before, t),
            world,
            Err::<U256, evm::Error>(evm::Error::OutOfGas),
        ),
        finalized(
            engine.schedule_in(info),
            info,
            t,
            world.substate,
            Err::<U256, evm::Error>(evm::Error::OutOfGas),
            world.state,
            after,
            receipt,
        ),
    ensures
        after == charged(before, t),
        world.substate.out_of_gas,
        receipt matches Ok(receipt) && receipt@ == failure_receipt(info.gas_used@, t.gas@),
{
}

/// A transaction whose execution can only run out of gas costs its sender all the gas that was paid
/// for, takes its nonce, and changes nothing else; its receipt says that all the gas was used.
pub proof fn law_transaction_out_of_gas<E: Engine, V: Evm<E>>(
    vm: V,
    engine: E,
    info: EnvInfo,
    depth: nat,
    t: Transaction,
    before: StateView,
    after: StateView,
    outcome: Result<Executed, Error>,
)
    requires
        accepted(before, info, t),
        transacted(vm, engine, info, depth, t, before, after, outcome),
        forall|world: World, result: EvmResult| #[trigger]
            executed(vm, engine, info, depth, t, charged(before, t), world, result) ==> result
                == Err::<U256, evm::Error>(evm::Error::OutOfGas),
    ensures
        after == charged(before, t),
        outcome matches Ok(receipt) && receipt@ == failure_receipt(info.gas_used@, t.gas@),
{
    let (world, result, receipt) = lemma_transacted(
        vm,
        engine,
        info,
        depth,
        t,
        before,
        after,
        outcome,
    );
    law_one_run_out_of_gas(vm, engine, info, depth, t, before, world, after, receipt);
}

/// With a frugal machine, a transaction that comes with its base gas is refunded no more gas than
/// it came with.
pub proof fn law_refund_within_gas<E: Engine, V: Evm<E>>(
    vm: V,
    engine: E,
    info: EnvInfo,
    depth: nat,
    t: Transaction,
    before: StateView,
    after: StateView,
    receipt: Executed,
)
    requires
        frugal(vm, engine),
        accepted(before, info, t),
        t.base_gas(engine.schedule_in(info)) <= t.gas@,
        transacted(vm, engine, info, depth, t, before, after, Ok::<Executed, Error>(receipt)),
    ensures
        receipt.refunded@ <= receipt.gas@,
{
    let (world, result, outcome) = lemma_transacted(
        vm,
        engine,
        info,
        depth,
        t,
        before,
        after,
        Ok::<Executed, Error>(receipt),
    );
    let schedule = engine.schedule_in(info);
    let params = transaction_params(charged(before, t), schedule, t);
    lemma_word_sub(t.gas@, t.base_gas(schedule));
    match result {
        Ok(gas_left) => {
            assert(gas_left@ <= params.gas);
            law_refund_bounds(schedule, world.substate, t.gas@, gas_left@);
        },
        Err(_) => {},
    }
}

/// The gas that the block has used stays within its limit, if the transaction is refunded no
/// more gas than it came with, and is then the sum of what was used before and by the
/// transaction.
pub proof fn law_block_limit<E: Engine, V: Evm<E>>(
    vm: V,
    engine: E,
    info: EnvInfo,
    depth: nat,
    t: Transaction,
    before: StateView,
    after: StateView,
    receipt: Executed,
)
    requires
        accepted(before, info, t),
        transacted(vm, engine, info, depth, t, before, after, Ok::<Executed, Error>(receipt)),
        receipt.refunded@ <= receipt.gas@,
    ensures
        receipt.cumulative_gas_used@ == info.gas_used@ + receipt.gas_used@,
        receipt.cumulative_gas_used@ <= info.gas_limit@,
{
    let (world, result, outcome) = lemma_transacted(
        vm,
        engine,
        info,
        depth,
        t,
        before,
        after,
        Ok::<Executed, Error>(receipt),
    );
    law_receipt_adds_up(
        engine.schedule_in(info),
        info,
        t,
        world.substate,
        result,
        world.state,
        after,
        receipt,
    );
    lemma_word_sub(t.gas@, receipt.refunded@);
    lemma_word_add(receipt.refunded@, receipt.gas_used@);
    lemma_word_add(info.gas_used@, receipt.gas_used@);
}

/// Whether the execution of an accepted transaction can take the world from its start in the
/// charged state to `after` and end with `result`, with the given tally.
pub open spec fn executed_tallied<E: Engine, V: Evm<E>>(
    vm: V,
    engine: E,
    info: EnvInfo,
    depth: nat,
    t: Transaction,
    start: StateView,
    after: World,
    result: EvmResult,
    tally: Tally,
) -> bool {
    let params = transaction_params(start, engine.schedule_in(info), t);
    let before = World { state: start, substate: SubstateView::empty() };
    match t.action {
        Action::Create => creation_tallied(
            vm,
            engine,
            info,
            depth,
            params,
            before,
            after,
            result,
            tally,
        ),
        Action::Call(_) => call_tallied(
            vm,
            engine,
            info,
            depth,
            params,
            before,
            OutputView::Flexible(Seq::empty()),
            after,
            result,
            tally,
        ),
    }
}

/// The execution of an accepted transaction by a machine that reaches the world only through the
/// externalities makes no value, keeps what the charge left of the supply unless it makes a
/// balance overflow, and lowers no nonce unless one overflows in it. Where all balances together
/// fit into a word, none of them overflows.
pub proof fn law_execution<E: Engine, V: Evm<E>>(
    vm: V,
    engine: E,
    info: EnvInfo,
    depth: nat,
    t: Transaction,
    before: StateView,
    world: World,
    result: EvmResult,
)
    requires
        through_externalities(vm, engine),
        before.well_formed(),
        accepted(before, info, t),
        executed(vm, engine, info, depth, t, charged(before, t), world, result),
    ensures
        world.state.well_formed(),
        ({
            let whole = before.supply() - t.gas@ * t.gas_price@;
            &&& world.state.supply() <= whole
            &&& world.state.supply() % two_256() == whole % (two_256() as int)
            &&& (before.sound() || forall|tally: Tally| #[trigger]
                executed_tallied(
                    vm,
                    engine,
                    info,
                    depth,
                    t,
                    charged(before, t),
                    world,
                    result,
                    tally,
                ) ==> tally.losses == 0) ==> world.state.supply() == whole
        }),
        (forall|tally: Tally| #[trigger]
            executed_tallied(
                vm,
                engine,
                info,
                depth,
                t,
                charged(before, t),
                world,
                result,
                tally,
            ) ==> tally.wraps == 0) ==> forall|a: Seq<u8>| #[trigger]
            charged(before, t).nonce(a) <= world.state.nonce(a),
{
    let start = charged(before, t);
    let params = transaction_params(start, engine.schedule_in(info), t);
    let first = World { state: start, substate: SubstateView::empty() };
    law_charge_is_covered(before, info, t, t.signer->0@);
    assert(t.gas@ * t.gas_price@ >= 0) by (nonlinear_arith);
    let tally = match t.action {
        Action::Create => {
            let tally = lemma_creation(vm, engine, info, depth, params, first, world, result);
            law_creation_tallies(vm, engine, info, depth, params, first, world, result, tally);
            tally
        },
        Action::Call(_) => {
            let flexible = OutputView::Flexible(Seq::empty());
            assert(called_freely(vm, engine, info, depth, params, first, world, result));
            let returned = choose|returned: OutputView| #[trigger]
                called(
                    vm,
                    engine,
                    info,
                    depth,
                    params,
                    first,
                    flexible,
                    world,
                    returned,
                    result,
                );
            let tally = lemma_call(
                vm,
                engine,
                info,
                depth,
                params,
                first,
                flexible,
                world,
                returned,
                result,
            );
            law_call_tallies(
                vm,
                engine,
                info,
                depth,
                params,
                first,
                flexible,
                world,
                result,
                tally,
            );
            tally
        },
    };
    assert(executed_tallied(vm, engine, info, depth, t, start, world, result, tally));
    lemma_losses(first, world, tally);
}

/// With a machine that reaches the world only through the externalities, a run of a transaction
/// that ends well and removes no account keeps the supply: what the sender pays for value and gas
/// is what the recipients, the refund and the author's fees get. This holds modulo `2^256` in any
/// case, and as numbers if no more gas is left or refunded than the transaction came with, or its
/// gas is free, and no balance overflows when it is credited. Where all balances together fit
/// into a word, none does.
#[verifier::spinoff_prover]
#[verifier::rlimit(40)]
pub proof fn law_one_run_keeps_supply<E: Engine, V: Evm<E>>(
    vm: V,
    engine: E,
    info: EnvInfo,
    depth: nat,
    t: Transaction,
    before: StateView,
    world: World,
    gas_left: U256,
    after: StateView,
    receipt: Executed,
)
    requires
        through_externalities(vm, engine),
        before.well_formed(),
        accepted(before, info, t),
        executed(
            vm,
            engine,
            info,
            depth,
            t,
            charged(before, t),
            world,
            Ok::<U256, evm::Error>(gas_left),
        ),
        world.substate.suicides == Set::<Seq<u8>>::empty(),
        finalized(
            engine.schedule_in(info),
            info,
            t,
            world.substate,
            Ok::<U256, evm::Error>(gas_left),
            world.state,
            after,
            Ok::<Executed, ExecutionError>(receipt),
        ),
    ensures
        after.supply() % two_256() == before.supply() % two_256(),
        ({
            let enough = gas_left@ <= t.gas@ || receipt.refunded@ <= t.gas@ || t.gas_price@ == 0;
            let nothing_lost = forall|tally: Tally| #[trigger]
                executed_tallied(
                    vm,
                    engine,
                    info,
                    depth,
                    t,
                    charged(before, t),
                    world,
                    Ok::<U256, evm::Error>(gas_left),
                    tally,
                ) ==> tally.losses == 0;
            let room = credits_fit(
                world.state,
                t.signer->0@,
                word_mul(receipt.refunded@, t.gas_price@),
                info.author@,
                word_mul(receipt.gas_used@, t.gas_price@),
            );
            enough && (before.sound() || (nothing_lost && room)) ==> after.supply()
                == before.supply()
        }),
{
    let schedule = engine.schedule_in(info);
    let cost = t.gas@ * t.gas_price@;
    law_charge_is_covered(before, info, t, t.signer->0@);
    assert(cost >= 0) by (nonlinear_arith)
        requires
            cost == t.gas@ * t.gas_price@,
    ;
    law_execution(
        vm,
        engine,
        info,
        depth,
        t,
        before,
        world,
        Ok::<U256, evm::Error>(gas_left),
    );
    if gas_left@ <= t.gas@ {
        law_refund_bounds(schedule, world.substate, t.gas@, gas_left@);
    }
    law_finalizing_keeps_supply(
        world.state,
        schedule,
        info.author@,
        t.signer->0@,
        t.gas@,
        t.gas_price@,
        world.substate,
        gas_left@,
    );
    let refunded = refund(schedule, world.substate, t.gas@, gas_left@);
    assert(receipt@.refunded == refunded);
    assert(receipt@.gas_used == word_sub(t.gas@, refunded));
    lemma_sum_modulo(world.state.supply(), before.supply(), cost);
}

/// What agrees modulo `2^256` still does when as much is added.
proof fn lemma_sum_modulo(rest: nat, whole: nat, part: nat)
    requires
        part <= whole,
        rest % two_256() == (whole - part) % (two_256() as int),
    ensures
        (rest + part) % two_256() == whole % two_256(),
{
}

/// With a machine that reaches the world only through the externalities, a run of a transaction
/// takes the sender's nonce for good, unless a nonce overflows or the sender's account is removed.
pub proof fn law_one_run_takes_nonce<E: Engine, V: Evm<E>>(
    vm: V,
    engine: E,
    info: EnvInfo,
    depth: nat,
    t: Transaction,
    before: StateView,
    world: World,
    result: EvmResult,
    after: StateView,
    receipt: ExecutionResult,
)
    requires
        through_externalities(vm, engine),
        before.well_formed(),
        accepted(before, info, t),
        t.nonce@ + 1 < two_256(),
        executed(vm, engine, info, depth, t, charged(before, t), world, result),
        forall|tally: Tally| #[trigger]
            executed_tallied(
                vm,
                engine,
                info,
                depth,
                t,
                charged(before, t),
                world,
                result,
                tally,
            ) ==> tally.wraps == 0,
        finalized(
            engine.schedule_in(info),
            info,
            t,
            world.substate,
            result,
            world.state,
            after,
            receipt,
        ),
        result is Ok ==> !world.substate.suicides.contains(t.signer->0@),
    ensures
        t.nonce@ + 1 <= after.nonce(t.signer->0@),
{
    let sender = t.signer->0@;
    law_charge_is_covered(before, info, t, sender);
    law_execution(vm, engine, info, depth, t, before, world, result);
    lemma_word_add(t.nonce@, 1);
    assert(charged(before, t).nonce(sender) <= world.state.nonce(sender));
    match result {
        Ok(gas_left) => {
            law_suicides_removed(
                world.state,
                engine.schedule_in(info),
                info.author@,
                sender,
                t.gas@,
                t.gas_price@,
                world.substate,
                gas_left@,
                sender,
            );
        },
        Err(_) => {},
    }
}

/// With a machine that reaches the world only through the externalities, a transaction never
/// makes value, if it is refunded no more gas than it came with or its gas is free. One that
/// the machine fails costs its sender, and the supply, all the gas that was paid for.
pub proof fn law_transaction_makes_no_value<E: Engine, V: Evm<E>>(
    vm: V,
    engine: E,
    info: EnvInfo,
    depth: nat,
    t: Transaction,
    before: StateView,
    after: StateView,
    outcome: Result<Executed, Error>,
)
    requires
        through_externalities(vm, engine),
        before.well_formed(),
        accepted(before, info, t),
        transacted(vm, engine, info, depth, t, before, after, outcome),
        outcome matches Ok(receipt) ==> receipt.refunded@ <= receipt.gas@ || t.gas_price@ == 0,
    ensures
        after.supply() <= before.supply(),
        outcome is Err ==> after.supply() <= before.supply() - t.gas@ * t.gas_price@,
        outcome is Err && before.sound() ==> after.supply() == before.supply() - t.gas@
            * t.gas_price@,
{
    let (world, result, receipt) = lemma_transacted(
        vm,
        engine,
        info,
        depth,
        t,
        before,
        after,
        outcome,
    );
    law_charge_is_covered(before, info, t, t.signer->0@);
    law_execution(vm, engine, info, depth, t, before, world, result);
    assert(t.gas@ * t.gas_price@ >= 0) by (nonlinear_arith);
    match result {
        Ok(gas_left) => {
            law_finalizing_keeps_supply(
                world.state,
                engine.schedule_in(info),
                info.author@,
                t.signer->0@,
                t.gas@,
                t.gas_price@,
                world.substate,
                gas_left@,
            );
        },
        Err(_) => {},
    }
}

/// With a machine that reaches the world only through the externalities, a transaction whose
/// execution can only end well and remove no account keeps the supply: modulo `2^256` in any
/// case, and as a number where all balances together fit into a word, if no more gas is refunded
/// than the transaction came with or its gas is free.
pub proof fn law_transaction_keeps_supply<E: Engine, V: Evm<E>>(
    vm: V,
    engine: E,
    info: EnvInfo,
    depth: nat,
    t: Transaction,
    before: StateView,
    after: StateView,
    outcome: Result<Executed, Error>,
)
    requires
        through_externalities(vm, engine),
        before.well_formed(),
        accepted(before, info, t),
        transacted(vm, engine, info, depth, t, before, after, outcome),
        forall|world: World, result: EvmResult| #[trigger]
            executed(vm, engine, info, depth, t, charged(before, t), world, result) ==> result is Ok
                && world.substate.suicides == Set::<Seq<u8>>::empty(),
    ensures
        after.supply() % two_256() == before.supply() % two_256(),
        outcome matches Ok(receipt) && (before.sound() && (receipt.refunded@ <= receipt.gas@
            || t.gas_price@ == 0) ==> after.supply() == before.supply()),
{
    let (world, result, receipt) = lemma_transacted(
        vm,
        engine,
        info,
        depth,
        t,
        before,
        after,
        outcome,
    );
    law_one_run_keeps_supply(
        vm,
        engine,
        info,
        depth,
        t,
        before,
        world,
        result->Ok_0,
        after,
        receipt->Ok_0,
    );
}

} // verus!
