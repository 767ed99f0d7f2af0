//! What calls, creations and transactions hand to the machine, and what they make of what comes
//! back.

use crate::engine::Engine;
use crate::env::{EnvInfo, Schedule};
use crate::error::{CryptoError, Error, ExecutionError, UtilError};
use crate::evm::{self, Evm, EvmResult};
use crate::executive::{
    accepted, call_start, called, called_freely, charged, created, created_address, creation_start,
    earned_refund, executed, finalized, refund, refused, settle, total_cost, transacted,
    transaction_params, Executed, ExecutionResult, Executive, World,
};
use crate::externalities::{called_within, created_within, ExtView};
use crate::hash::Address;
use crate::laws::{lemma_nothing_earned, lemma_transacted};
use crate::output::OutputView;
use crate::state::{AccountView, StateView};
use crate::substate::SubstateView;
use crate::transaction::{Action, ParamsView, Transaction};
use crate::uint::{lemma_word_sub, two_256, word_add, word_mul, word_sub, U256};
use vstd::prelude::*;

verus! {

/// Two executives are in the same frame if they agree on the block, the chain and the depth.
pub proof fn law_same_frame<'a, E: Engine>(one: Executive<'a, E>, other: Executive<'a, E>)
    ensures
        one.same_frame(&other) <==> one.info == other.info && one.engine == other.engine
            && one.depth == other.depth,
{
}

/// Running out of gas takes the state back and is noted, and keeps the rest of the substate; any
/// other end keeps everything.
pub proof fn law_settling(backup: StateView, done: World, result: EvmResult)
    ensures
        ({
            let after = settle(backup, done, result);
            &&& result == Err::<U256, evm::Error>(evm::Error::OutOfGas) ==> {
                &&& after.state == backup
                &&& after.substate.out_of_gas
                &&& after.substate.suicides == done.substate.suicides
                &&& after.substate.logs == done.substate.logs
                &&& after.substate.refunds_count == done.substate.refunds_count
                &&& after.substate.contracts_created == done.substate.contracts_created
            }
            &&& result != Err::<U256, evm::Error>(evm::Error::OutOfGas) ==> after.state
                == done.state && after.substate == done.substate
        }),
{
}

/// The code of a call starts at the depth and in the block that it is made in, with the
/// parameters, the substate and the buffer that it is given, by the rules of the chain, after the
/// value has moved from the sender to the account. What it returns is data.
pub proof fn law_start_of_call<E: Engine>(
    engine: E,
    info: EnvInfo,
    depth: nat,
    params: ParamsView,
    before: World,
    output: OutputView,
)
    ensures
        ({
            let start = call_start(engine, info, depth, params, before, output);
            &&& start.state == before.state.transfer_balance(
                params.sender,
                params.address,
                params.value,
            )
            &&& start.info == info
            &&& start.depth == depth
            &&& start.params == params
            &&& start.substate == before.substate
            &&& start.schedule == engine.schedule_in(info)
            &&& start.output == output
            &&& !start.init_contract
        }),
{
}

/// The code of a creation starts at the depth and in the block that it is made in, with the
/// parameters and the substate that it is given, by the rules of the chain, after the account
/// has been made ready and the value has moved to it. What it returns is the contract's code.
pub proof fn law_start_of_creation<E: Engine>(
    engine: E,
    info: EnvInfo,
    depth: nat,
    params: ParamsView,
    before: World,
)
    ensures
        ({
            let start = creation_start(engine, info, depth, params, before);
            &&& start.state == before.state.new_contract(params.address).transfer_balance(
                params.sender,
                params.address,
                params.value,
            )
            &&& start.info == info
            &&& start.depth == depth
            &&& start.params == params
            &&& start.substate == before.substate
            &&& start.schedule == engine.schedule_in(info)
            &&& start.output == OutputView::Flexible(Seq::empty())
            &&& start.init_contract
        }),
{
}

/// A call of a built-in contract moves the value. If the gas covers the price of the input, the
/// rest of the gas is left and the contract's output is in the buffer; else no gas is left and
/// the buffer is as it was.
pub proof fn law_builtin_call<E: Engine, V: Evm<E>>(
    vm: V,
    engine: E,
    info: EnvInfo,
    depth: nat,
    params: ParamsView,
    before: World,
    output: OutputView,
    after: World,
    returned: OutputView,
    result: EvmResult,
)
    requires
        engine.builtin_at(params.address),
        called(vm, engine, info, depth, params, before, output, after, returned, result),
    ensures
        after.state == before.state.transfer_balance(params.sender, params.address, params.value),
        after.substate == before.substate,
        ({
            let price = engine.builtin_cost(params.address, params.data);
            &&& result matches Ok(gas_left)
            &&& price <= params.gas ==> gas_left@ + price == params.gas && returned
                == engine.builtin_output(params.address, params.data, output)
            &&& price > params.gas ==> gas_left@ == 0 && returned == output
        }),
        returned.shaped_as(output),
{
}

/// A call without code moves the value, leaves all the gas, and returns nothing.
pub proof fn law_codeless_call<E: Engine, V: Evm<E>>(
    vm: V,
    engine: E,
    info: EnvInfo,
    depth: nat,
    params: ParamsView,
    before: World,
    output: OutputView,
    after: World,
    returned: OutputView,
    result: EvmResult,
)
    requires
        !engine.builtin_at(params.address),
        params.code.len() == 0,
        called(vm, engine, info, depth, params, before, output, after, returned, result),
    ensures
        after.state == before.state.transfer_balance(params.sender, params.address, params.value),
        after.substate == before.substate,
        returned == output,
        result matches Ok(gas_left) && gas_left@ == params.gas,
{
}

/// A call with code is a run of the machine with the call's own parameters, from its start. The
/// buffer holds what the run left in it, and the world is what the run made of it, or the state
/// before the call if it ran out of gas.
pub proof fn law_code_call<E: Engine, V: Evm<E>>(
    vm: V,
    engine: E,
    info: EnvInfo,
    depth: nat,
    params: ParamsView,
    before: World,
    output: OutputView,
    after: World,
    returned: OutputView,
    result: EvmResult,
)
    requires
        !engine.builtin_at(params.address),
        params.code.len() > 0,
        called(vm, engine, info, depth, params, before, output, after, returned, result),
    ensures
        returned.shaped_as(output),
        exists|start: ExtView, done: ExtView|
            {
                &&& #[trigger] vm.ran(engine, params, start, done, result)
                &&& start.state == before.state.transfer_balance(
                    params.sender,
                    params.address,
                    params.value,
                )
                &&& start.info == info
                &&& start.depth == depth
                &&& start.params == params
                &&& start.substate == before.substate
                &&& start.schedule == engine.schedule_in(info)
                &&& start.output == output
                &&& !start.init_contract
                &&& returned == done.output
                &&& after == settle(
                    before.state,
                    World { state: done.state, substate: done.substate },
                    result,
                )
            },
{
    let done = choose|done: ExtView|
        {
            &&& #[trigger] vm.ran(
                engine,
                params,
                call_start(engine, info, depth, params, before, output),
                done,
                result,
            )
            &&& after == settle(before.state, done.world(), result)
            &&& returned == done.output
        };
    let start = call_start(engine, info, depth, params, before, output);
    assert(vm.ran(engine, params, start, done, result));
}

/// A creation is a run of the machine with the creation's own parameters, from its start. The
/// world is what the run made of it, or the state before the creation if it ran out of gas.
pub proof fn law_creation_runs<E: Engine, V: Evm<E>>(
    vm: V,
    engine: E,
    info: EnvInfo,
    depth: nat,
    params: ParamsView,
    before: World,
    after: World,
    result: EvmResult,
)
    requires
        created(vm, engine, info, depth, params, before, after, result),
    ensures
        exists|start: ExtView, done: ExtView|
            {
                &&& #[trigger] vm.ran(engine, params, start, done, result)
                &&& start.state == before.state.new_contract(params.address).transfer_balance(
                    params.sender,
                    params.address,
                    params.value,
                )
                &&& start.info == info
                &&& start.depth == depth
                &&& start.params == params
                &&& start.substate == before.substate
                &&& start.schedule == engine.schedule_in(info)
                &&& start.output == OutputView::Flexible(Seq::empty())
                &&& start.init_contract
                &&& after == settle(
                    before.state,
                    World { state: done.state, substate: done.substate },
                    result,
                )
            },
{
    let start = creation_start(engine, info, depth, params, before);
    let done = choose|done: ExtView|
        {
            &&& #[trigger] vm.ran(engine, params, start, done, result)
            &&& after == settle(before.state, done.world(), result)
        };
    assert(vm.ran(engine, params, start, done, result));
}

/// A creation that running code makes takes its account's nonce, and runs the given code, with
/// the given gas and value and no input, at the address that the nonce before gives, one level
/// deeper. If it ends well, the gas left and the address come back; else neither. All else of the
/// externalities is as it was.
#[verifier::spinoff_prover]
#[verifier::rlimit(40)]
pub proof fn law_nested_creation_runs<E: Engine, V: Evm<E>>(
    vm: V,
    engine: E,
    before: ExtView,
    gas: nat,
    value: nat,
    code: Seq<u8>,
    after: ExtView,
    outcome: (U256, Option<Address>),
)
    requires
        created_within(vm, engine, before, before.create_params(gas, value, code), after, outcome),
    ensures
        after.info == before.info,
        after.depth == before.depth,
        after.params == before.params,
        after.schedule == before.schedule,
        after.output == before.output,
        after.init_contract == before.init_contract,
        exists|params: ParamsView, start: ExtView, done: ExtView, result: EvmResult|
            {
                let creator = before.params.address;
                let taken = before.state.inc_nonce(creator);
                &&& #[trigger] vm.ran(engine, params, start, done, result)
                &&& params.address == created_address(creator, before.state.nonce(creator))
                &&& params.sender == creator
                &&& params.origin == before.params.origin
                &&& params.gas == gas
                &&& params.gas_price == before.params.gas_price
                &&& params.value == value
                &&& params.code == code
                &&& params.data.len() == 0
                &&& start.state == taken.new_contract(params.address).transfer_balance(
                    creator,
                    params.address,
                    value,
                )
                &&& start.info == before.info
                &&& start.depth == before.depth + 1
                &&& start.params == params
                &&& start.substate == before.substate
                &&& start.schedule == engine.schedule_in(before.info)
                &&& start.init_contract
                &&& (World { state: after.state, substate: after.substate }) == settle(
                    taken,
                    World { state: done.state, substate: done.substate },
                    result,
                )
                &&& result matches Ok(gas_left) ==> outcome.0 == gas_left && (outcome.1 matches Some(
                    address,
                ) && address@ == params.address)
                &&& result is Err ==> outcome.0@ == 0 && outcome.1 is None
            },
{
    let params = before.create_params(gas, value, code);
    let taken = World {
        state: before.state.inc_nonce(before.params.address),
        substate: before.substate,
    };
    let (world, result) = choose|world: World, result: EvmResult|
        {
            &&& #[trigger] created(
                vm,
                engine,
                before.info,
                before.depth + 1,
                params,
                taken,
                world,
                result,
            )
            &&& after == before.with_world(world)
            &&& match result {
                Ok(gas_left) => {
                    &&& outcome.0 == gas_left
                    &&& outcome.1 matches Some(address)
                    &&& address@ == params.address
                },
                Err(_) => outcome.0@ == 0 && outcome.1 is None,
            }
        };
    let start = creation_start(engine, before.info, before.depth + 1, params, taken);
    let done = choose|done: ExtView|
        {
            &&& #[trigger] vm.ran(engine, params, start, done, result)
            &&& world == settle(taken.state, done.world(), result)
        };
    assert(vm.ran(engine, params, start, done, result));
}

/// A call that running code makes reaches its callee with the data, the value and the gas that are
/// passed, one level deeper. A built-in contract is priced by that data and answers it into the
/// caller's buffer; code is run with that data as its input, and what it leaves in the buffer is
/// what the caller gets; where there is neither, only the value moves. All else of the
/// externalities is as it was.
#[verifier::spinoff_prover]
#[verifier::rlimit(40)]
pub proof fn law_nested_call_runs<E: Engine, V: Evm<E>>(
    vm: V,
    engine: E,
    before: ExtView,
    call_gas: nat,
    receive_address: Seq<u8>,
    value: nat,
    data: Seq<u8>,
    code_address: Seq<u8>,
    kept: nat,
    output: Seq<u8>,
    after: ExtView,
    returned: Seq<u8>,
    outcome: Result<(U256, bool), evm::Error>,
)
    requires
        called_within(
            vm,
            engine,
            before,
            before.call_params(call_gas, receive_address, value, data, code_address),
            kept,
            output,
            after,
            returned,
            outcome,
        ),
        kept < two_256(),
    ensures
        after.info == before.info,
        after.depth == before.depth,
        after.params == before.params,
        after.schedule == before.schedule,
        after.output == before.output,
        after.init_contract == before.init_contract,
        returned.len() == output.len(),
        ({
            let caller = before.params.address;
            let paid = before.state.transfer_balance(caller, receive_address, value);
            let gas = before.callee_gas(call_gas, value);
            let price = engine.builtin_cost(receive_address, data);
            if engine.builtin_at(receive_address) {
                &&& after.state == paid
                &&& after.substate == before.substate
                &&& outcome matches Ok((left, success))
                &&& success
                &&& price <= gas ==> {
                    &&& left@ == (kept + gas - price) % (two_256() as int)
                    &&& returned == engine.builtin_output(
                        receive_address,
                        data,
                        OutputView::Fixed(output),
                    ).bytes()
                }
                &&& price > gas ==> left@ == kept && returned == output
            } else if before.state.code(code_address).len() == 0 {
                &&& after.state == paid
                &&& after.substate == before.substate
                &&& outcome matches Ok((left, success))
                &&& success
                &&& left@ == (kept + gas) % two_256()
                &&& returned == output
            } else {
                exists|params: ParamsView, start: ExtView, done: ExtView, result: EvmResult|
                    {
                        &&& #[trigger] vm.ran(engine, params, start, done, result)
                        &&& params.address == receive_address
                        &&& params.sender == caller
                        &&& params.origin == before.params.origin
                        &&& params.gas == gas
                        &&& params.gas_price == before.params.gas_price
                        &&& params.value == value
                        &&& params.code == before.state.code(code_address)
                        &&& params.data == data
                        &&& start.state == paid
                        &&& start.info == before.info
                        &&& start.depth == before.depth + 1
                        &&& start.params == params
                        &&& start.substate == before.substate
                        &&& start.schedule == engine.schedule_in(before.info)
                        &&& start.output == OutputView::Fixed(output)
                        &&& !start.init_contract
                        &&& returned == done.output.bytes()
                        &&& (World { state: after.state, substate: after.substate }) == settle(
                            before.state,
                            World { state: done.state, substate: done.substate },
                            result,
                        )
                        &&& outcome matches Ok((left, success))
                        &&& success == (result is Ok)
                        &&& result matches Ok(gas_left) ==> left@ == (kept + gas_left@) % two_256()
                        &&& result is Err ==> left@ == kept
                    }
            }
        }),
{
    reveal(word_add);
    let params = before.call_params(call_gas, receive_address, value, data, code_address);
    let buffer = OutputView::Fixed(output);
    let (world, filled, result) = choose|world: World, filled: OutputView, result: EvmResult|
        {
            &&& #[trigger] called(
                vm,
                engine,
                before.info,
                before.depth + 1,
                params,
                before.world(),
                buffer,
                world,
                filled,
                result,
            )
            &&& after == before.with_world(world)
            &&& returned == filled.bytes()
            &&& outcome matches Ok((left, success))
            &&& match result {
                Ok(gas_left) => left@ == word_add(kept, gas_left@) && success,
                Err(_) => left@ == kept && !success,
            }
        };
    if !engine.builtin_at(receive_address) && before.state.code(code_address).len() > 0 {
        let start = call_start(
            engine,
            before.info,
            before.depth + 1,
            params,
            before.world(),
            buffer,
        );
        let done = choose|done: ExtView|
            {
                &&& #[trigger] vm.ran(engine, params, start, done, result)
                &&& world == settle(before.state, done.world(), result)
                &&& filled == done.output
            };
        assert(vm.ran(engine, params, start, done, result));
    }
}

/// The gas refunded is what is left and what was earned, but of that at most half of what was
/// used. Each cleared slot and each removed account earns its price. All of this is modulo
/// `2^256`, and in plain numbers where nothing overflows.
#[verifier::spinoff_prover]
#[verifier::rlimit(40)]
pub proof fn law_refund(schedule: Schedule, substate: SubstateView, gas: nat, gas_left: nat)
    requires
        gas < two_256(),
        gas_left < two_256(),
    ensures
        ({
            let earned = schedule.sstore_refund_gas * substate.refunds_count
                + schedule.suicide_refund_gas * substate.suicides.len();
            let counted = earned % (two_256() as int);
            let half = ((gas - gas_left) % (two_256() as int)) / 2;
            let extra = if counted <= half {
                counted
            } else {
                half
            };
            &&& earned_refund(schedule, substate) == counted
            &&& refund(schedule, substate, gas, gas_left) == (gas_left + extra) % (
            two_256() as int)
            &&& gas_left <= gas && earned < two_256() ==> {
                &&& earned <= (gas - gas_left) / 2 ==> refund(schedule, substate, gas, gas_left)
                    == gas_left + earned
                &&& earned > (gas - gas_left) / 2 ==> refund(schedule, substate, gas, gas_left)
                    == gas_left + (gas - gas_left) / 2
            }
        }),
{
    let a = schedule.sstore_refund_gas as nat * substate.refunds_count;
    let b = schedule.suicide_refund_gas as nat * substate.suicides.len();
    assert(a >= 0 && b >= 0) by (nonlinear_arith)
        requires
            a == schedule.sstore_refund_gas as nat * substate.refunds_count,
            b == schedule.suicide_refund_gas as nat * substate.suicides.len(),
    ;
    assert(earned_refund(schedule, substate) == (a + b) % two_256()) by {
        reveal(word_add);
        reveal(word_mul);
    }
    lemma_word_sub(gas, gas_left);
    assert(word_sub(gas, gas_left) == (gas - gas_left) % (two_256() as int)) by {
        reveal(word_sub);
    }
    reveal(word_add);
}

/// Below the cap, one more cleared slot adds its price to what is refunded, and so does one more
/// account that is removed.
pub proof fn law_refund_grows(
    schedule: Schedule,
    substate: SubstateView,
    cleared: SubstateView,
    removed: SubstateView,
    gas: nat,
    gas_left: nat,
)
    requires
        gas_left <= gas < two_256(),
        cleared.refunds_count == substate.refunds_count + 1,
        cleared.suicides.len() == substate.suicides.len(),
        removed.refunds_count == substate.refunds_count,
        removed.suicides.len() == substate.suicides.len() + 1,
    ensures
        ({
            let earned = schedule.sstore_refund_gas * substate.refunds_count
                + schedule.suicide_refund_gas * substate.suicides.len();
            &&& earned + schedule.sstore_refund_gas <= (gas - gas_left) / 2 ==> refund(
                schedule,
                cleared,
                gas,
                gas_left,
            ) == refund(schedule, substate, gas, gas_left) + schedule.sstore_refund_gas
            &&& earned + schedule.suicide_refund_gas <= (gas - gas_left) / 2 ==> refund(
                schedule,
                removed,
                gas,
                gas_left,
            ) == refund(schedule, substate, gas, gas_left) + schedule.suicide_refund_gas
        }),
{
    let s = schedule.sstore_refund_gas as int;
    let k = schedule.suicide_refund_gas as int;
    let n = substate.refunds_count as int;
    let m = substate.suicides.len() as int;
    law_refund(schedule, substate, gas, gas_left);
    law_refund(schedule, cleared, gas, gas_left);
    law_refund(schedule, removed, gas, gas_left);
    assert(s * (n + 1) == s * n + s) by (nonlinear_arith);
    assert(k * (m + 1) == k * m + k) by (nonlinear_arith);
    assert(s * n >= 0 && k * m >= 0) by (nonlinear_arith)
        requires
            s >= 0,
            n >= 0,
            k >= 0,
            m >= 0,
    ;
}

/// A transaction that ended well is finalized with a receipt of the gas it came with, the refund,
/// the rest as used, the sum of that with what the block had used, and the logs, the flag and the
/// contracts of its substate, one by one. The sender is paid the refund and the author the rest,
/// both at the gas price, and the marked accounts are removed.
#[verifier::spinoff_prover]
#[verifier::rlimit(40)]
pub proof fn law_finalized_well(
    schedule: Schedule,
    info: EnvInfo,
    t: Transaction,
    substate: SubstateView,
    gas_left: U256,
    before: StateView,
    after: StateView,
    outcome: ExecutionResult,
)
    requires
        finalized(
            schedule,
            info,
            t,
            substate,
            Ok::<U256, evm::Error>(gas_left),
            before,
            after,
            outcome,
        ),
    ensures
        outcome is Ok,
        ({
            let receipt = outcome->Ok_0;
            let refunded = receipt.refunded@;
            let used = receipt.gas_used@;
            let price = t.gas_price@;
            &&& receipt.gas@ == t.gas@
            &&& refunded == refund(schedule, substate, t.gas@, gas_left@)
            &&& used == (t.gas@ - refunded) % (two_256() as int)
            &&& receipt.cumulative_gas_used@ == (info.gas_used@ + used) % two_256()
            &&& receipt.out_of_gas == substate.out_of_gas
            &&& receipt.logs@.len() == substate.logs.len()
            &&& forall|i: int|
                0 <= i < substate.logs.len() ==> (#[trigger] receipt.logs@[i]).address@
                    == substate.logs[i].address && receipt.logs@[i]@.topics
                    == substate.logs[i].topics && receipt.logs@[i].data@ == substate.logs[i].data
            &&& receipt.contracts_created@.len() == substate.contracts_created.len()
            &&& forall|i: int|
                0 <= i < substate.contracts_created.len() ==> (
                #[trigger] receipt.contracts_created@[i])@ == substate.contracts_created[i]
            &&& after == before.add_balance(
                t.signer->0@,
                (refunded * price) % two_256(),
            ).add_balance(info.author@, (used * price) % two_256()).kill_accounts(
                substate.suicides,
            )
        }),
{
    reveal(word_add);
    reveal(word_sub);
    reveal(word_mul);
    let receipt = outcome->Ok_0;
    assert(receipt@.logs == substate.logs);
    assert(receipt@.contracts_created == substate.contracts_created);
    assert forall|i: int| 0 <= i < substate.logs.len() implies (
    #[trigger] receipt.logs@[i]).address@ == substate.logs[i].address && receipt.logs@[i]@.topics
        == substate.logs[i].topics && receipt.logs@[i].data@ == substate.logs[i].data by {
        assert(receipt@.logs[i] == receipt.logs@[i]@);
    }
    assert forall|i: int| 0 <= i < substate.contracts_created.len() implies (
    #[trigger] receipt.contracts_created@[i])@ == substate.contracts_created[i] by {
        assert(receipt@.contracts_created[i] == receipt.contracts_created@[i]@);
    }
}

/// A transaction that ran out of gas is finalized with a receipt that says that all its gas was
/// used, and nothing else happened; one that the machine failed has no receipt. Neither changes
/// the state.
pub proof fn law_finalized_badly(
    schedule: Schedule,
    info: EnvInfo,
    t: Transaction,
    substate: SubstateView,
    error: evm::Error,
    before: StateView,
    after: StateView,
    outcome: ExecutionResult,
)
    requires
        finalized(
            schedule,
            info,
            t,
            substate,
            Err::<U256, evm::Error>(error),
            before,
            after,
            outcome,
        ),
    ensures
        after == before,
        error == evm::Error::Internal ==> outcome == Err::<Executed, ExecutionError>(
            ExecutionError::Internal,
        ),
        error == evm::Error::OutOfGas ==> outcome is Ok && {
            let receipt = outcome->Ok_0;
            &&& receipt.gas@ == t.gas@
            &&& receipt.gas_used@ == t.gas@
            &&& receipt.refunded@ == 0
            &&& receipt.cumulative_gas_used@ == (info.gas_used@ + t.gas@) % two_256()
            &&& receipt.out_of_gas
            &&& receipt.logs@.len() == 0
            &&& receipt.contracts_created@.len() == 0
        },
{
    reveal(word_add);
    if error == evm::Error::OutOfGas {
        let receipt = outcome->Ok_0;
        assert(receipt@.logs.len() == receipt.logs@.len());
        assert(receipt@.contracts_created.len() == receipt.contracts_created@.len());
    }
}

/// A transaction is accepted exactly if it is signed, carries its sender's nonce, fits into the
/// block with all its gas, and its sender has the value and the price of the gas.
pub proof fn law_acceptance(state: StateView, info: EnvInfo, t: Transaction)
    ensures
        total_cost(t) == t.value@ + t.gas@ * t.gas_price@,
        accepted(state, info, t) <==> t.signer is Some && t.nonce@ == state.nonce(t.signer->0@)
            && info.gas_used@ + t.gas@ <= info.gas_limit@ && t.value@ + t.gas@ * t.gas_price@
            <= state.balance(t.signer->0@),
{
}

/// A transaction that is refused gets the first reason that holds: no valid signature, the wrong
/// nonce, too much gas for the block, or too little money; each with the numbers that show it.
pub proof fn law_refusal(state: StateView, info: EnvInfo, t: Transaction, error: Error)
    requires
        refused(state, info, t, error),
    ensures
        t.signer is None ==> error == Error::Util(
            UtilError::Crypto(CryptoError::InvalidSignature),
        ),
        t.signer is Some ==> error is Execution && {
            let sender = t.signer->0@;
            let wrong_nonce = t.nonce@ != state.nonce(sender);
            let too_much = info.gas_used@ + t.gas@ > info.gas_limit@;
            &&& wrong_nonce ==> (error->Execution_0 matches ExecutionError::InvalidNonce {
                expected,
                is: given,
            } && expected@ == state.nonce(sender) && given@ == t.nonce@)
            &&& !wrong_nonce && too_much ==> (
            error->Execution_0 matches ExecutionError::BlockGasLimitReached {
                gas_limit,
                gas_used,
                gas,
            } && gas_limit@ == info.gas_limit@ && gas_used@ == info.gas_used@ && gas@ == t.gas@)
            &&& !wrong_nonce && !too_much ==> (
            error->Execution_0 matches ExecutionError::NotEnoughCash {
                required,
                is: balance,
            } && required@ == t.value@ + t.gas@ * t.gas_price@ && balance@ == state.balance(sender)
                && balance@ < required@)
        },
{
}

/// The charge takes the sender's nonce and the price of all the gas, and touches nothing else.
pub proof fn law_charge(state: StateView, t: Transaction)
    requires
        t.signer is Some,
    ensures
        ({
            let sender = t.signer->0@;
            charged(state, t).accounts == state.accounts.insert(
                sender,
                AccountView {
                    nonce: word_add(state.nonce(sender), 1),
                    balance: word_sub(state.balance(sender), t.gas@ * t.gas_price@),
                    code: state.code(sender),
                    storage: state.account(sender).storage,
                },
            )
        }),
{
}

/// A transaction that calls an account with code runs that code with the transaction's own data
/// as its input, from its sender, at its gas price, with its value, and with its gas but for the
/// base gas; the state that it starts from is the charged one with the value moved. What came of
/// the run is then finalized.
#[verifier::spinoff_prover]
#[verifier::rlimit(40)]
pub proof fn law_transaction_call<E: Engine, V: Evm<E>>(
    vm: V,
    engine: E,
    info: EnvInfo,
    depth: nat,
    t: Transaction,
    before: StateView,
    after: StateView,
    outcome: Result<Executed, Error>,
)
    requires
        accepted(before, info, t),
        t.action matches Action::Call(to) && !engine.builtin_at(to@) && before.code(to@).len() > 0,
        transacted(vm, engine, info, depth, t, before, after, outcome),
    ensures
        exists|
            params: ParamsView,
            start: ExtView,
            done: ExtView,
            result: EvmResult,
            world: World,
            receipt: ExecutionResult,
        |
            {
                let sender = t.signer->0@;
                let to = t.action->Call_0@;
                let charge = charged(before, t);
                &&& #[trigger] vm.ran(engine, params, start, done, result)
                &&& world == settle(
                    charge,
                    World { state: done.state, substate: done.substate },
                    result,
                )
                &&& params.address == to
                &&& params.sender == sender
                &&& params.origin == sender
                &&& params.gas == word_sub(t.gas@, t.base_gas(engine.schedule_in(info)))
                &&& params.gas_price == t.gas_price@
                &&& params.value == t.value@
                &&& params.code == before.code(to)
                &&& params.data == t.data@
                &&& start.state == charge.transfer_balance(sender, to, t.value@)
                &&& start.info == info
                &&& start.depth == depth
                &&& start.params == params
                &&& start.substate == SubstateView::empty()
                &&& start.schedule == engine.schedule_in(info)
                &&& start.output == OutputView::Flexible(Seq::empty())
                &&& !start.init_contract
                &&& #[trigger] finalized(
                    engine.schedule_in(info),
                    info,
                    t,
                    world.substate,
                    result,
                    world.state,
                    after,
                    receipt,
                )
                &&& receipt matches Ok(executed) ==> outcome == Ok::<Executed, Error>(executed)
                &&& receipt matches Err(error) ==> outcome == Err::<Executed, Error>(
                    Error::Execution(error),
                )
            },
{
    let charge = charged(before, t);
    let to = t.action->Call_0@;
    let params = transaction_params(charge, engine.schedule_in(info), t);
    let first = World { state: charge, substate: SubstateView::empty() };
    let flexible = OutputView::Flexible(Seq::empty());
    let (world, result, receipt) = lemma_transacted(
        vm,
        engine,
        info,
        depth,
        t,
        before,
        after,
        outcome,
    );
    assert(charge.code(to) == before.code(to));
    assert(called_freely(vm, engine, info, depth, params, first, world, result));
    let returned = choose|returned: OutputView| #[trigger]
        called(vm, engine, info, depth, params, first, flexible, world, returned, result);
    let start = call_start(engine, info, depth, params, first, flexible);
    let done = choose|done: ExtView|
        {
            &&& #[trigger] vm.ran(engine, params, start, done, result)
            &&& world == settle(charge, done.world(), result)
        };
    assert(vm.ran(engine, params, start, done, result));
    assert(world == settle(charge, World { state: done.state, substate: done.substate }, result));
}

/// A transaction that calls a built-in contract pays the price of the transaction's own data: that
/// much gas is used on top of the base gas, or all of it if there is too little. The value moves,
/// and nothing is noted in the receipt.
#[verifier::spinoff_prover]
#[verifier::rlimit(40)]
pub proof fn law_transaction_builtin<E: Engine, V: Evm<E>>(
    vm: V,
    engine: E,
    info: EnvInfo,
    depth: nat,
    t: Transaction,
    before: StateView,
    after: StateView,
    outcome: Result<Executed, Error>,
)
    requires
        accepted(before, info, t),
        t.action matches Action::Call(to) && engine.builtin_at(to@),
        t.base_gas(engine.schedule_in(info)) <= t.gas@,
        transacted(vm, engine, info, depth, t, before, after, outcome),
    ensures
        outcome is Ok,
        ({
            let receipt = outcome->Ok_0;
            let to = t.action->Call_0@;
            let sender = t.signer->0@;
            let base = t.base_gas(engine.schedule_in(info));
            let price = engine.builtin_cost(to, t.data@);
            let used = if base + price <= t.gas@ {
                base + price
            } else {
                t.gas@
            };
            &&& receipt.gas_used@ == used
            &&& receipt.refunded@ == t.gas@ - used
            &&& !receipt.out_of_gas
            &&& receipt.logs@.len() == 0
            &&& receipt.contracts_created@.len() == 0
            &&& after == charged(before, t).transfer_balance(sender, to, t.value@).add_balance(
                sender,
                ((t.gas@ - used) as nat * t.gas_price@) % two_256(),
            ).add_balance(info.author@, (used * t.gas_price@) % two_256())
        }),
{
    let schedule = engine.schedule_in(info);
    let charge = charged(before, t);
    let to = t.action->Call_0@;
    let params = transaction_params(charge, schedule, t);
    let first = World { state: charge, substate: SubstateView::empty() };
    let flexible = OutputView::Flexible(Seq::empty());
    let (world, result, receipt) = lemma_transacted(
        vm,
        engine,
        info,
        depth,
        t,
        before,
        after,
        outcome,
    );
    assert(called_freely(vm, engine, info, depth, params, first, world, result));
    let returned = choose|returned: OutputView| #[trigger]
        called(vm, engine, info, depth, params, first, flexible, world, returned, result);
    law_builtin_call(
        vm,
        engine,
        info,
        depth,
        params,
        first,
        flexible,
        world,
        returned,
        result,
    );
    lemma_word_sub(t.gas@, t.base_gas(schedule));
    let gas_left = result->Ok_0;
    assert(gas_left@ <= t.gas@);
    lemma_nothing_earned(schedule, t.gas@, gas_left@);
    law_finalized_well(
        schedule,
        info,
        t,
        world.substate,
        gas_left,
        world.state,
        after,
        receipt,
    );
    let last = world.state.add_balance(
        t.signer->0@,
        (gas_left@ * t.gas_price@) % two_256(),
    ).add_balance(info.author@, ((t.gas@ - gas_left@) as nat * t.gas_price@) % two_256());
    assert(last.accounts.remove_keys(Set::<Seq<u8>>::empty()) =~= last.accounts);
}

/// A transaction that creates a contract runs the transaction's own data as the contract's code,
/// without input, at the address that the sender's nonce gives, from its sender, at its gas
/// price, with its value, and with its gas but for the base gas; the state that it starts from is
/// the charged one with the account made ready and the value moved. What came of the run is then
/// finalized.
#[verifier::spinoff_prover]
#[verifier::rlimit(40)]
pub proof fn law_transaction_creation<E: Engine, V: Evm<E>>(
    vm: V,
    engine: E,
    info: EnvInfo,
    depth: nat,
    t: Transaction,
    before: StateView,
    after: StateView,
    outcome: Result<Executed, Error>,
)
    requires
        accepted(before, info, t),
        t.action == Action::Create,
        transacted(vm, engine, info, depth, t, before, after, outcome),
    ensures
        exists|
            params: ParamsView,
            start: ExtView,
            done: ExtView,
            result: EvmResult,
            world: World,
            receipt: ExecutionResult,
        |
            {
                let sender = t.signer->0@;
                let charge = charged(before, t);
                &&& #[trigger] vm.ran(engine, params, start, done, result)
                &&& world == settle(
                    charge,
                    World { state: done.state, substate: done.substate },
                    result,
                )
                &&& params.address == created_address(sender, before.nonce(sender))
                &&& params.sender == sender
                &&& params.origin == sender
                &&& params.gas == word_sub(t.gas@, t.base_gas(engine.schedule_in(info)))
                &&& params.gas_price == t.gas_price@
                &&& params.value == t.value@
                &&& params.code == t.data@
                &&& params.data.len() == 0
                &&& start.state == charge.new_contract(params.address).transfer_balance(
                    sender,
                    params.address,
                    t.value@,
                )
                &&& start.info == info
                &&& start.depth == depth
                &&& start.params == params
                &&& start.substate == SubstateView::empty()
                &&& start.schedule == engine.schedule_in(info)
                &&& start.init_contract
                &&& #[trigger] finalized(
                    engine.schedule_in(info),
                    info,
                    t,
                    world.substate,
                    result,
                    world.state,
                    after,
                    receipt,
                )
                &&& receipt matches Ok(executed) ==> outcome == Ok::<Executed, Error>(executed)
                &&& receipt matches Err(error) ==> outcome == Err::<Executed, Error>(
                    Error::Execution(error),
                )
            },
{
    let charge = charged(before, t);
    let params = transaction_params(charge, engine.schedule_in(info), t);
    let first = World { state: charge, substate: SubstateView::empty() };
    let (world, result, receipt) = lemma_transacted(
        vm,
        engine,
        info,
        depth,
        t,
        before,
        after,
        outcome,
    );
    let start = creation_start(engine, info, depth, params, first);
    let done = choose|done: ExtView|
        {
            &&& #[trigger] vm.ran(engine, params, start, done, result)
            &&& world == settle(charge, done.world(), result)
        };
    assert(vm.ran(engine, params, start, done, result));
    assert(world == settle(charge, World { state: done.state, substate: done.substate }, result));
}

} // verus!
