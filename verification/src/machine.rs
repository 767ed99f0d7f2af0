//! Machines that reach the world only through the externalities, and what holds of their runs.

use crate::engine::Engine;
use crate::env::EnvInfo;
use crate::evm::{self, Evm, EvmResult};
use crate::executive::{call_start, called, created, creation_start, settle, World};
use crate::externalities::{called_within, created_within, ExtView};
use crate::hash::Address;
use crate::output::OutputView;
use crate::state::StateView;
use crate::substate::SubstateView;
use crate::supply::{law_bookkeeping_keeps_supply, law_transfer_keeps_supply};
use crate::transaction::ParamsView;
use crate::uint::{lemma_word_add, two_256, word_add, U256};
use vstd::prelude::*;

verus! {

/// Whether two externalities are those of the same run.
pub open spec fn same_run(before: ExtView, after: ExtView) -> bool {
    &&& after.info == before.info
    &&& after.depth == before.depth
    &&& after.params == before.params
    &&& after.schedule == before.schedule
    &&& after.init_contract == before.init_contract
}

/// What is counted over a run: the refunds that it earns, and what it loses because a word has no
/// room for more.
pub ghost struct Tally {
    /// The storage slots that were cleared.
    pub clears: nat,
    /// The transfers that made a balance overflow, but for those that were taken back.
    pub losses: nat,
    /// The nonces that overflowed, but for those that were taken back.
    pub wraps: nat,
}

impl Tally {
    /// Nothing is counted.
    pub open spec fn zero() -> Tally {
        Tally { clears: 0, losses: 0, wraps: 0 }
    }

    /// One thing after the other.
    pub open spec fn plus(self, other: Tally) -> Tally {
        Tally {
            clears: self.clears + other.clears,
            losses: self.losses + other.losses,
            wraps: self.wraps + other.wraps,
        }
    }

    /// A transfer.
    pub open spec fn transfer(state: StateView, from: Seq<u8>, to: Seq<u8>, amount: nat) -> Tally {
        Tally {
            losses: if state.overflows(from, to, amount) {
                1
            } else {
                0
            },
            ..Tally::zero()
        }
    }

    /// The nonce that a creation takes.
    pub open spec fn nonce(state: StateView, a: Seq<u8>) -> Tally {
        Tally {
            wraps: if state.nonce(a) + 1 >= two_256() {
                1
            } else {
                0
            },
            ..Tally::zero()
        }
    }

    /// What is left of this when it ends with `result`: running out of gas takes back what
    /// happened to the state, but not the refunds earned.
    pub open spec fn settled(self, result: EvmResult) -> Tally {
        if result == Err::<U256, evm::Error>(evm::Error::OutOfGas) {
            Tally { losses: 0, wraps: 0, ..self }
        } else {
            self
        }
    }
}

/// Whether one thing that running code does by itself takes the externalities from `before` to
/// `after`, and what is counted: it stores a value, makes an entry in the log, pays its balance
/// out, or returns data.
pub open spec fn acted_alone(before: ExtView, after: ExtView, tally: Tally) -> bool {
    let address = before.params.address;
    ||| exists|key: Seq<u8>, value: Seq<u8>|
        {
            &&& after == #[trigger] before.sstore(key, value)
            &&& tally == Tally {
                clears: if before.clears(key, value) {
                    1
                } else {
                    0
                },
                ..Tally::zero()
            }
        }
    ||| tally == Tally::zero() && exists|topics: Seq<Seq<u8>>, data: Seq<u8>|
        after == #[trigger] before.log(topics, data)
    ||| exists|refund_address: Seq<u8>|
        {
            &&& after == #[trigger] before.suicide(refund_address)
            &&& tally == Tally::transfer(
                before.state,
                address,
                refund_address,
                before.state.balance(address),
            )
        }
    ||| tally == Tally::zero() && exists|gas: nat, data: Seq<u8>|
        after == #[trigger] before.returned(gas, data)
}

/// The externalities after the running account has paid a value to another.
pub open spec fn paid(before: ExtView, to: Seq<u8>, value: nat) -> ExtView {
    ExtView {
        state: before.state.transfer_balance(before.params.address, to, value),
        ..before
    }
}

/// Whether a call that runs no code, because it meets none or a built-in contract, can take the
/// externalities from `before` to `after`, and what is counted.
pub open spec fn acted_paying(before: ExtView, after: ExtView, tally: Tally) -> bool {
    exists|to: Seq<u8>, value: nat|
        {
            &&& before.may_descend(value)
            &&& after == #[trigger] paid(before, to, value)
            &&& tally == Tally::transfer(before.state, before.params.address, to, value)
        }
}

/// Whether a creation, whose code the machine runs from `start` to `done`, takes the
/// externalities from `before` to `after`.
pub open spec fn nested_creation<E: Engine, V: Evm<E>>(
    vm: V,
    engine: E,
    before: ExtView,
    start: ExtView,
    done: ExtView,
    after: ExtView,
    gas: nat,
    value: nat,
    code: Seq<u8>,
    result: EvmResult,
) -> bool {
    let params = before.create_params(gas, value, code);
    let taken = before.state.inc_nonce(before.params.address);
    let world = World { state: taken, substate: before.substate };
    &&& before.may_descend(value)
    &&& start == creation_start(engine, before.info, before.depth + 1, params, world)
    &&& vm.ran(engine, params, start, done, result)
    &&& after == before.with_world(settle(taken, done.world(), result))
}

/// What is counted over a creation in whose run `inside` is counted.
pub open spec fn nested_creation_tally(
    before: ExtView,
    gas: nat,
    value: nat,
    code: Seq<u8>,
    inside: Tally,
    result: EvmResult,
) -> Tally {
    let address = before.params.address;
    let created = before.create_params(gas, value, code).address;
    let fresh = before.state.inc_nonce(address).new_contract(created);
    Tally::nonce(before.state, address).plus(
        Tally::transfer(fresh, address, created, value).plus(inside).settled(result),
    )
}

/// Whether a call, whose code the machine runs from `start` to `done`, takes the externalities
/// from `before` to `after`.
pub open spec fn nested_call<E: Engine, V: Evm<E>>(
    vm: V,
    engine: E,
    before: ExtView,
    start: ExtView,
    done: ExtView,
    after: ExtView,
    call_gas: nat,
    receive_address: Seq<u8>,
    value: nat,
    data: Seq<u8>,
    code_address: Seq<u8>,
    result: EvmResult,
) -> bool {
    let params = before.call_params(call_gas, receive_address, value, data, code_address);
    let world = before.world();
    &&& before.may_descend(value)
    &&& start == call_start(engine, before.info, before.depth + 1, params, world, start.output)
    &&& vm.ran(engine, params, start, done, result)
    &&& after == before.with_world(settle(before.state, done.world(), result))
}

/// What is counted over a call in whose run `inside` is counted.
pub open spec fn nested_call_tally(
    before: ExtView,
    receive_address: Seq<u8>,
    value: nat,
    inside: Tally,
    result: EvmResult,
) -> Tally {
    Tally::transfer(before.state, before.params.address, receive_address, value).plus(
        inside,
    ).settled(result)
}

/// Whether a creation or a call, whose code the machine runs from `start` to `done`, can take the
/// externalities from `before` to `after`, and what is counted over it if `inside` is counted
/// over that run.
pub open spec fn acted_nested<E: Engine, V: Evm<E>>(
    vm: V,
    engine: E,
    before: ExtView,
    start: ExtView,
    done: ExtView,
    after: ExtView,
    inside: Tally,
    tally: Tally,
) -> bool {
    ||| exists|gas: nat, value: nat, code: Seq<u8>, result: EvmResult|
        {
            &&& #[trigger] nested_creation(
                vm,
                engine,
                before,
                start,
                done,
                after,
                gas,
                value,
                code,
                result,
            )
            &&& tally == nested_creation_tally(before, gas, value, code, inside, result)
        }
    ||| exists|
        call_gas: nat,
        receive_address: Seq<u8>,
        value: nat,
        data: Seq<u8>,
        code_address: Seq<u8>,
        result: EvmResult,
    |
        {
            &&& #[trigger] nested_call(
                vm,
                engine,
                before,
                start,
                done,
                after,
                call_gas,
                receive_address,
                value,
                data,
                code_address,
                result,
            )
            &&& tally == nested_call_tally(before, receive_address, value, inside, result)
        }
}

/// Whether one operation of the externalities can take them from `before` to `after`.
pub open spec fn acted<E: Engine, V: Evm<E>>(
    vm: V,
    engine: E,
    before: ExtView,
    after: ExtView,
) -> bool {
    ||| exists|tally: Tally| #[trigger] acted_alone(before, after, tally)
    ||| exists|tally: Tally| #[trigger] acted_paying(before, after, tally)
    ||| exists|start: ExtView, done: ExtView, inside: Tally, tally: Tally| #[trigger]
        acted_nested(vm, engine, before, start, done, after, inside, tally)
}

/// Whether operations of the externalities, one after the other, take them from `before` to
/// `after`. The trail holds the externalities in which each operation starts.
pub open spec fn reached<E: Engine, V: Evm<E>>(
    vm: V,
    engine: E,
    before: ExtView,
    trail: Seq<ExtView>,
    after: ExtView,
) -> bool
    decreases trail.len(),
{
    if trail.len() == 0 {
        after == before
    } else {
        &&& reached(vm, engine, before, trail.drop_last(), trail.last())
        &&& acted(vm, engine, trail.last(), after)
    }
}

/// Whether a machine reaches the world only through the externalities: every run of it is a
/// sequence of their operations.
pub open spec fn through_externalities<E: Engine, V: Evm<E>>(vm: V, engine: E) -> bool {
    forall|params: ParamsView, before: ExtView, after: ExtView, result: EvmResult| #[trigger]
        vm.ran(engine, params, before, after, result) ==> exists|trail: Seq<ExtView>|
            reached(vm, engine, before, trail, after)
}

/// Whether a machine makes no gas: a run leaves no more than it is given.
pub open spec fn frugal<E: Engine, V: Evm<E>>(vm: V, engine: E) -> bool {
    forall|params: ParamsView, before: ExtView, after: ExtView, result: EvmResult| #[trigger]
        vm.ran(engine, params, before, after, result) ==> (result matches Ok(gas_left)
            ==> gas_left@ <= params.gas)
}

/// Storing, logging, paying out and returning data are operations of the externalities.
pub proof fn law_operations_act<E: Engine, V: Evm<E>>(
    vm: V,
    engine: E,
    ext: ExtView,
    key: Seq<u8>,
    value: Seq<u8>,
    topics: Seq<Seq<u8>>,
    data: Seq<u8>,
    gas: nat,
    refund_address: Seq<u8>,
)
    ensures
        acted(vm, engine, ext, ext.sstore(key, value)),
        acted(vm, engine, ext, ext.log(topics, data)),
        acted(vm, engine, ext, ext.suicide(refund_address)),
        acted(vm, engine, ext, ext.returned(gas, data)),
{
    let cleared = Tally {
        clears: if ext.clears(key, value) {
            1
        } else {
            0
        },
        ..Tally::zero()
    };
    let address = ext.params.address;
    let transfer = Tally::transfer(ext.state, address, refund_address, ext.state.balance(address));
    assert(acted_alone(ext, ext.sstore(key, value), cleared));
    assert(acted_alone(ext, ext.log(topics, data), Tally::zero()));
    assert(acted_alone(ext, ext.suicide(refund_address), transfer));
    assert(acted_alone(ext, ext.returned(gas, data), Tally::zero()));
}

/// A creation made from within a run is an operation of the externalities.
pub proof fn law_creation_acts<E: Engine, V: Evm<E>>(
    vm: V,
    engine: E,
    before: ExtView,
    gas: nat,
    value: nat,
    code: Seq<u8>,
    after: ExtView,
    outcome: (U256, Option<Address>),
)
    requires
        before.may_descend(value),
        created_within(vm, engine, before, before.create_params(gas, value, code), after, outcome),
    ensures
        acted(vm, engine, before, after),
{
    let params = before.create_params(gas, value, code);
    let taken = World {
        state: before.state.inc_nonce(before.params.address),
        substate: before.substate,
    };
    let (world, result) = choose|world: World, result: EvmResult|
        {
            &&& #[trigger] created(
                vm,
                engine,
                before.info,
                before.depth + 1,
                params,
                taken,
                world,
                result,
            )
            &&& after == before.with_world(world)
        };
    let start = creation_start(engine, before.info, before.depth + 1, params, taken);
    let done = choose|done: ExtView|
        {
            &&& #[trigger] vm.ran(engine, params, start, done, result)
            &&& world == settle(taken.state, done.world(), result)
        };
    assert(nested_creation(
        vm,
        engine,
        before,
        start,
        done,
        after,
        gas,
        value,
        code,
        result,
    ));
    let tally = nested_creation_tally(before, gas, value, code, Tally::zero(), result);
    assert(acted_nested(vm, engine, before, start, done, after, Tally::zero(), tally));
}

/// A call made from within a run is an operation of the externalities.
pub proof fn law_call_acts<E: Engine, V: Evm<E>>(
    vm: V,
    engine: E,
    before: ExtView,
    call_gas: nat,
    receive_address: Seq<u8>,
    value: nat,
    data: Seq<u8>,
    code_address: Seq<u8>,
    gas: nat,
    output: Seq<u8>,
    after: ExtView,
    returned: Seq<u8>,
    outcome: Result<(U256, bool), evm::Error>,
)
    requires
        before.may_descend(value),
        called_within(
            vm,
            engine,
            before,
            before.call_params(call_gas, receive_address, value, data, code_address),
            gas,
            output,
            after,
            returned,
            outcome,
        ),
    ensures
        acted(vm, engine, before, after),
{
    let params = before.call_params(call_gas, receive_address, value, data, code_address);
    let buffer = OutputView::Fixed(output);
    let (world, filled, result) = choose|world: World, filled: OutputView, result: EvmResult|
        {
            &&& #[trigger] called(
                vm,
                engine,
                before.info,
                before.depth + 1,
                params,
                before.world(),
                buffer,
                world,
                filled,
                result,
            )
            &&& after == before.with_world(world)
        };
    if !engine.builtin_at(params.address) && params.code.len() > 0 {
        let start = call_start(
            engine,
            before.info,
            before.depth + 1,
            params,
            before.world(),
            buffer,
        );
        let done = choose|done: ExtView|
            {
                &&& #[trigger] vm.ran(engine, params, start, done, result)
                &&& world == settle(before.state, done.world(), result)
            };
        assert(nested_call(
            vm,
            engine,
            before,
            start,
            done,
            after,
            call_gas,
            receive_address,
            value,
            data,
            code_address,
            result,
        ));
        let tally = nested_call_tally(before, receive_address, value, Tally::zero(), result);
        assert(acted_nested(vm, engine, before, start, done, after, Tally::zero(), tally));
    } else {
        assert(after == paid(before, receive_address, value));
        let tally = Tally::transfer(before.state, before.params.address, receive_address, value);
        assert(acted_paying(before, after, tally));
    }
}

/// Whether a substate has only been added to: nothing that was noted in it is gone.
pub open spec fn grown(before: SubstateView, after: SubstateView) -> bool {
    &&& before.suicides.subset_of(after.suicides)
    &&& before.logs.is_prefix_of(after.logs)
    &&& before.out_of_gas ==> after.out_of_gas
    &&& before.contracts_created.is_prefix_of(after.contracts_created)
}

/// What is added to a substate that was added to is still an addition.
proof fn lemma_grown(first: SubstateView, second: SubstateView, third: SubstateView)
    requires
        grown(first, second),
        grown(second, third),
    ensures
        grown(first, third),
{
    assert(first.logs =~= third.logs.subrange(0, first.logs.len() as int)) by {
        assert(second.logs == third.logs.subrange(0, second.logs.len() as int));
    }
    assert(first.contracts_created =~= third.contracts_created.subrange(
        0,
        first.contracts_created.len() as int,
    )) by {
        assert(second.contracts_created == third.contracts_created.subrange(
            0,
            second.contracts_created.len() as int,
        ));
    }
}

/// Everything that a machine can do to the world by itself keeps the supply, but for `2^256` that
/// paying out loses if the balance that it credits overflows.
pub proof fn law_operations_keep_supply(
    ext: ExtView,
    key: Seq<u8>,
    value: Seq<u8>,
    topics: Seq<Seq<u8>>,
    data: Seq<u8>,
    gas: nat,
    refund_address: Seq<u8>,
)
    requires
        ext.state.well_formed(),
    ensures
        ext.sstore(key, value).state.well_formed(),
        ext.sstore(key, value).state.supply() == ext.state.supply(),
        ext.log(topics, data).state == ext.state,
        ext.returned(gas, data).state.well_formed(),
        ext.returned(gas, data).state.supply() == ext.state.supply(),
        ext.suicide(refund_address).state.well_formed(),
        ({
            let address = ext.params.address;
            let balance = ext.state.balance(address);
            ext.suicide(refund_address).state.supply() == ext.state.supply() - (
            if ext.state.overflows(address, refund_address, balance) {
                two_256() as int
            } else {
                0
            })
        }),
{
    let address = ext.params.address;
    law_bookkeeping_keeps_supply(ext.state, address, address, key, value, data);
    law_transfer_keeps_supply(ext.state, address, refund_address, ext.state.balance(address));
}

/// Everything that a machine can do to the world by itself only adds to the substate, and so
/// does one thing after another. Only a refund that the count has no room for is lost.
pub proof fn law_operations_grow_substate(
    start: SubstateView,
    ext: ExtView,
    key: Seq<u8>,
    value: Seq<u8>,
    topics: Seq<Seq<u8>>,
    data: Seq<u8>,
    gas: nat,
    refund_address: Seq<u8>,
)
    requires
        grown(start, ext.substate),
    ensures
        grown(start, ext.sstore(key, value).substate),
        ext.substate.refunds_count + 1 < two_256() ==> ext.substate.refunds_count <= ext.sstore(
            key,
            value,
        ).substate.refunds_count,
        grown(start, ext.log(topics, data).substate),
        ext.log(topics, data).substate.refunds_count == ext.substate.refunds_count,
        grown(start, ext.returned(gas, data).substate),
        ext.returned(gas, data).substate.refunds_count == ext.substate.refunds_count,
        grown(start, ext.suicide(refund_address).substate),
        ext.suicide(refund_address).substate.refunds_count == ext.substate.refunds_count,
{
    if ext.substate.refunds_count + 1 < two_256() {
        lemma_word_add(ext.substate.refunds_count, 1);
    }
}

/// How much deeper runs may be nested.
pub open spec fn headroom<E: Engine>(engine: E, ext: ExtView) -> nat {
    let most = engine.schedule_in(ext.info).max_depth;
    if ext.depth < most {
        (most - ext.depth) as nat
    } else {
        0
    }
}

/// Whether one operation can take the externalities from `before` to `after` with the given
/// tally, what is counted over the runs nested in it included.
pub open spec fn acted_tallied<E: Engine, V: Evm<E>>(
    vm: V,
    engine: E,
    before: ExtView,
    after: ExtView,
    tally: Tally,
    nesting: nat,
) -> bool
    decreases nesting, 0nat, 0nat,
{
    ||| acted_alone(before, after, tally)
    ||| acted_paying(before, after, tally)
    ||| nesting > 0 && exists|start: ExtView, done: ExtView, inside: Tally|
        {
            &&& #[trigger] acted_nested(vm, engine, before, start, done, after, inside, tally)
            &&& ran_tallied(vm, engine, start, done, inside, (nesting - 1) as nat)
        }
}

/// Whether operations, one after the other, can take the externalities from `before` to `after`
/// with the given tally. The trail holds the externalities in which each operation starts and the
/// tallies so far and of the operation.
pub open spec fn reached_tallied<E: Engine, V: Evm<E>>(
    vm: V,
    engine: E,
    before: ExtView,
    trail: Seq<(ExtView, Tally, Tally)>,
    after: ExtView,
    tally: Tally,
    nesting: nat,
) -> bool
    decreases nesting, 1nat, trail.len(),
{
    if trail.len() == 0 {
        after == before && tally == Tally::zero()
    } else {
        let (last, so_far, more) = trail.last();
        &&& tally == so_far.plus(more)
        &&& reached_tallied(vm, engine, before, trail.drop_last(), last, so_far, nesting)
        &&& acted_tallied(vm, engine, last, after, more, nesting)
    }
}

/// Whether a trail that leads to `after` starts in `before`.
pub open spec fn starts_at(
    before: ExtView,
    trail: Seq<(ExtView, Tally, Tally)>,
    after: ExtView,
) -> bool {
    if trail.len() == 0 {
        after == before
    } else {
        trail.first().0 == before
    }
}

/// Whether a run, in which others are nested at most `nesting` deep, can take the externalities
/// from `before` to `after` with the given tally.
pub open spec fn ran_tallied<E: Engine, V: Evm<E>>(
    vm: V,
    engine: E,
    before: ExtView,
    after: ExtView,
    tally: Tally,
    nesting: nat,
) -> bool
    decreases nesting, 2nat, 0nat,
{
    exists|trail: Seq<(ExtView, Tally, Tally)>|
        {
            &&& #[trigger] starts_at(before, trail, after)
            &&& reached_tallied(vm, engine, before, trail, after, tally, nesting)
        }
}

/// Whether what happened to the world agrees with a tally: each loss takes `2^256` from the
/// supply, no nonce falls unless one overflowed, and the count of refunds is raised by the
/// clears, modulo `2^256`.
pub open spec fn tallies(before: World, after: World, tally: Tally) -> bool {
    &&& before.state.well_formed() ==> {
        &&& after.state.well_formed()
        &&& after.state.supply() + tally.losses * two_256() == before.state.supply()
    }
    &&& tally.wraps == 0 ==> forall|a: Seq<u8>| #[trigger]
        before.state.nonce(a) <= after.state.nonce(a)
    &&& before.substate.refunds_count < two_256() ==> after.substate.refunds_count == (
    before.substate.refunds_count + tally.clears) % two_256()
}

/// One thing after the other agrees with the sum of the tallies.
proof fn lemma_tallies_plus(first: World, second: World, third: World, a: Tally, b: Tally)
    requires
        tallies(first, second, a),
        tallies(second, third, b),
    ensures
        tallies(first, third, a.plus(b)),
{
    assert((a.losses + b.losses) * two_256() == a.losses * two_256() + b.losses * two_256())
        by (nonlinear_arith);
    if a.wraps + b.wraps == 0 {
        assert forall|x: Seq<u8>| #[trigger] first.state.nonce(x) <= third.state.nonce(x) by {
            assert(first.state.nonce(x) <= second.state.nonce(x));
            assert(second.state.nonce(x) <= third.state.nonce(x));
        }
    }
}

/// A transfer that the sender can pay agrees with its tally.
proof fn lemma_transfer_tallies(world: World, from: Seq<u8>, to: Seq<u8>, amount: nat)
    requires
        amount <= world.state.balance(from),
    ensures
        tallies(
            world,
            World { state: world.state.transfer_balance(from, to, amount), ..world },
            Tally::transfer(world.state, from, to, amount),
        ),
{
    if world.state.well_formed() {
        law_transfer_keeps_supply(world.state, from, to, amount);
    }
}

/// What running code does by itself agrees with its tally, and only adds to the substate.
proof fn lemma_alone(before: ExtView, after: ExtView, tally: Tally)
    requires
        acted_alone(before, after, tally),
    ensures
        same_run(before, after),
        grown(before.substate, after.substate),
        tallies(before.world(), after.world(), tally),
{
    let none = Seq::<u8>::empty();
    let address = before.params.address;
    let balance = before.state.balance(address);
    if exists|key: Seq<u8>, value: Seq<u8>|
        {
            &&& after == #[trigger] before.sstore(key, value)
            &&& tally == Tally {
                clears: if before.clears(key, value) {
                    1
                } else {
                    0
                },
                ..Tally::zero()
            }
        } {
        let (key, value) = choose|key: Seq<u8>, value: Seq<u8>|
            {
                &&& after == #[trigger] before.sstore(key, value)
                &&& tally == Tally {
                    clears: if before.clears(key, value) {
                        1
                    } else {
                        0
                    },
                    ..Tally::zero()
                }
            };
        reveal(word_add);
        if before.state.well_formed() {
            law_bookkeeping_keeps_supply(before.state, address, address, key, value, none);
        }
    } else if exists|to: Seq<u8>|
        {
            &&& after == #[trigger] before.suicide(to)
            &&& tally == Tally::transfer(before.state, address, to, balance)
        } {
        let to = choose|to: Seq<u8>|
            {
                &&& after == #[trigger] before.suicide(to)
                &&& tally == Tally::transfer(before.state, address, to, balance)
            };
        lemma_transfer_tallies(before.world(), address, to, balance);
    } else if exists|gas: nat, data: Seq<u8>| after == #[trigger] before.returned(gas, data) {
        let (gas, data) = choose|gas: nat, data: Seq<u8>|
            after == #[trigger] before.returned(gas, data);
        if before.state.well_formed() {
            law_bookkeeping_keeps_supply(before.state, address, address, none, none, data);
        }
    }
}

/// Settling a world whose tally is `whole` since the backup agrees with the settled tally.
proof fn lemma_settled(backup: World, done: World, whole: Tally, result: EvmResult)
    requires
        tallies(backup, done, whole),
    ensures
        tallies(backup, settle(backup.state, done, result), whole.settled(result)),
{
}

/// The start of a creation agrees with the tally of its transfer.
proof fn lemma_creation_start<E: Engine>(
    engine: E,
    info: EnvInfo,
    depth: nat,
    params: ParamsView,
    before: World,
)
    requires
        params.value <= before.state.balance(params.sender),
    ensures
        tallies(
            before,
            creation_start(engine, info, depth, params, before).world(),
            Tally::transfer(
                before.state.new_contract(params.address),
                params.sender,
                params.address,
                params.value,
            ),
        ),
{
    let a = params.address;
    let fresh = World { state: before.state.new_contract(a), ..before };
    if before.state.well_formed() {
        law_bookkeeping_keeps_supply(before.state, a, a, a, a, a);
    }
    assert(tallies(before, fresh, Tally::zero()));
    lemma_transfer_tallies(fresh, params.sender, a, params.value);
    let transfer = Tally::transfer(fresh.state, params.sender, a, params.value);
    let start = creation_start(engine, info, depth, params, before).world();
    lemma_tallies_plus(before, fresh, start, Tally::zero(), transfer);
    assert(Tally::zero().plus(transfer) == transfer);
}

/// What a creation or a call does around the run of its code.
proof fn lemma_nested<E: Engine, V: Evm<E>>(
    vm: V,
    engine: E,
    before: ExtView,
    start: ExtView,
    done: ExtView,
    after: ExtView,
    inside: Tally,
    tally: Tally,
)
    requires
        acted_nested(vm, engine, before, start, done, after, inside, tally),
    ensures
        before.depth < before.schedule.max_depth,
        start.info == before.info,
        start.depth == before.depth + 1,
        start.schedule == engine.schedule_in(before.info),
        same_run(before, after),
        grown(start.substate, done.substate) ==> grown(before.substate, after.substate),
        tallies(start.world(), done.world(), inside) ==> tallies(
            before.world(),
            after.world(),
            tally,
        ),
        exists|params: ParamsView, result: EvmResult| #[trigger]
            vm.ran(engine, params, start, done, result),
{
    let address = before.params.address;
    if exists|gas: nat, value: nat, code: Seq<u8>, result: EvmResult|
        {
            &&& #[trigger] nested_creation(
                vm,
                engine,
                before,
                start,
                done,
                after,
                gas,
                value,
                code,
                result,
            )
            &&& tally == nested_creation_tally(before, gas, value, code, inside, result)
        } {
        let (gas, value, code, result) = choose|
            gas: nat,
            value: nat,
            code: Seq<u8>,
            result: EvmResult,
        |
            {
                &&& #[trigger] nested_creation(
                    vm,
                    engine,
                    before,
                    start,
                    done,
                    after,
                    gas,
                    value,
                    code,
                    result,
                )
                &&& tally == nested_creation_tally(before, gas, value, code, inside, result)
            };
        let params = before.create_params(gas, value, code);
        let taken = World { state: before.state.inc_nonce(address), substate: before.substate };
        let fresh = taken.state.new_contract(params.address);
        if before.state.well_formed() {
            law_bookkeeping_keeps_supply(before.state, address, address, address, address, address);
        }
        if before.state.nonce(address) + 1 < two_256() {
            lemma_word_add(before.state.nonce(address), 1);
        }
        assert(tallies(before.world(), taken, Tally::nonce(before.state, address)));
        lemma_creation_start(engine, before.info, before.depth + 1, params, taken);
        let transfer = Tally::transfer(fresh, address, params.address, value);
        if tallies(start.world(), done.world(), inside) {
            lemma_tallies_plus(taken, start.world(), done.world(), transfer, inside);
            lemma_settled(taken, done.world(), transfer.plus(inside), result);
            lemma_tallies_plus(
                before.world(),
                taken,
                after.world(),
                Tally::nonce(before.state, address),
                transfer.plus(inside).settled(result),
            );
        }
    } else {
        let (call_gas, to, value, data, code_address, result) = choose|
            call_gas: nat,
            to: Seq<u8>,
            value: nat,
            data: Seq<u8>,
            code_address: Seq<u8>,
            result: EvmResult,
        |
            {
                &&& #[trigger] nested_call(
                    vm,
                    engine,
                    before,
                    start,
                    done,
                    after,
                    call_gas,
                    to,
                    value,
                    data,
                    code_address,
                    result,
                )
                &&& tally == nested_call_tally(before, to, value, inside, result)
            };
        lemma_transfer_tallies(before.world(), address, to, value);
        let transfer = Tally::transfer(before.state, address, to, value);
        if tallies(start.world(), done.world(), inside) {
            lemma_tallies_plus(before.world(), start.world(), done.world(), transfer, inside);
            lemma_settled(before.world(), done.world(), transfer.plus(inside), result);
        }
    }
}

/// Whatever is counted over the run of a creation or a call, there is a tally of the whole.
proof fn lemma_nested_sum<E: Engine, V: Evm<E>>(
    vm: V,
    engine: E,
    before: ExtView,
    start: ExtView,
    done: ExtView,
    after: ExtView,
    any: Tally,
    its: Tally,
    inside: Tally,
) -> (sum: Tally)
    requires
        acted_nested(vm, engine, before, start, done, after, any, its),
    ensures
        acted_nested(vm, engine, before, start, done, after, inside, sum),
{
    if exists|gas: nat, value: nat, code: Seq<u8>, result: EvmResult| #[trigger]
        nested_creation(vm, engine, before, start, done, after, gas, value, code, result) {
        let (gas, value, code, result) = choose|
            gas: nat,
            value: nat,
            code: Seq<u8>,
            result: EvmResult,
        | #[trigger]
            nested_creation(vm, engine, before, start, done, after, gas, value, code, result);
        nested_creation_tally(before, gas, value, code, inside, result)
    } else {
        let (call_gas, to, value, data, code_address, result) = choose|
            call_gas: nat,
            to: Seq<u8>,
            value: nat,
            data: Seq<u8>,
            code_address: Seq<u8>,
            result: EvmResult,
        | #[trigger]
            nested_call(
                vm,
                engine,
                before,
                start,
                done,
                after,
                call_gas,
                to,
                value,
                data,
                code_address,
                result,
            );
        nested_call_tally(before, to, value, inside, result)
    }
}

/// An operation agrees with its tally.
proof fn lemma_act_tallies<E: Engine, V: Evm<E>>(
    vm: V,
    engine: E,
    before: ExtView,
    after: ExtView,
    tally: Tally,
    nesting: nat,
)
    requires
        acted_tallied(vm, engine, before, after, tally, nesting),
    ensures
        tallies(before.world(), after.world(), tally),
    decreases nesting, 0nat, 0nat,
{
    if acted_alone(before, after, tally) {
        lemma_alone(before, after, tally);
    } else if acted_paying(before, after, tally) {
        let (to, value) = choose|to: Seq<u8>, value: nat|
            {
                &&& before.may_descend(value)
                &&& after == #[trigger] paid(before, to, value)
                &&& tally == Tally::transfer(before.state, before.params.address, to, value)
            };
        lemma_transfer_tallies(before.world(), before.params.address, to, value);
    } else {
        let (start, done, inside) = choose|start: ExtView, done: ExtView, inside: Tally|
            {
                &&& #[trigger] acted_nested(vm, engine, before, start, done, after, inside, tally)
                &&& ran_tallied(vm, engine, start, done, inside, (nesting - 1) as nat)
            };
        law_run_tallies(vm, engine, start, done, inside, (nesting - 1) as nat);
        lemma_nested(vm, engine, before, start, done, after, inside, tally);
    }
}

/// Operations, one after the other, agree with their tally.
proof fn lemma_trail_tallies<E: Engine, V: Evm<E>>(
    vm: V,
    engine: E,
    before: ExtView,
    trail: Seq<(ExtView, Tally, Tally)>,
    after: ExtView,
    tally: Tally,
    nesting: nat,
)
    requires
        reached_tallied(vm, engine, before, trail, after, tally, nesting),
    ensures
        tallies(before.world(), after.world(), tally),
    decreases nesting, 1nat, trail.len(),
{
    if trail.len() > 0 {
        let (last, so_far, more) = trail.last();
        lemma_trail_tallies(vm, engine, before, trail.drop_last(), last, so_far, nesting);
        lemma_act_tallies(vm, engine, last, after, more, nesting);
        lemma_tallies_plus(before.world(), last.world(), after.world(), so_far, more);
    }
}

/// A run agrees with its tally: each transfer that made a balance overflow took `2^256` from the
/// supply, no nonce fell unless one overflowed, and the count of refunds was raised by the slots
/// cleared, modulo `2^256`.
pub proof fn law_run_tallies<E: Engine, V: Evm<E>>(
    vm: V,
    engine: E,
    before: ExtView,
    after: ExtView,
    tally: Tally,
    nesting: nat,
)
    requires
        ran_tallied(vm, engine, before, after, tally, nesting),
    ensures
        tallies(before.world(), after.world(), tally),
    decreases nesting, 2nat, 0nat,
{
    let trail = choose|trail: Seq<(ExtView, Tally, Tally)>|
        {
            &&& #[trigger] starts_at(before, trail, after)
            &&& reached_tallied(vm, engine, before, trail, after, tally, nesting)
        };
    lemma_trail_tallies(vm, engine, before, trail, after, tally, nesting);
}

/// What one operation of a machine that reaches the world only through the externalities does.
/// Returns its tally.
proof fn lemma_act<E: Engine, V: Evm<E>>(
    vm: V,
    engine: E,
    before: ExtView,
    after: ExtView,
) -> (tally: Tally)
    requires
        through_externalities(vm, engine),
        before.schedule == engine.schedule_in(before.info),
        acted(vm, engine, before, after),
    ensures
        same_run(before, after),
        grown(before.substate, after.substate),
        acted_tallied(vm, engine, before, after, tally, headroom(engine, before)),
    decreases headroom(engine, before), 0nat, 0nat,
{
    if exists|tally: Tally| #[trigger] acted_alone(before, after, tally) {
        let tally = choose|tally: Tally| #[trigger] acted_alone(before, after, tally);
        lemma_alone(before, after, tally);
        tally
    } else if exists|tally: Tally| #[trigger] acted_paying(before, after, tally) {
        choose|tally: Tally| #[trigger] acted_paying(before, after, tally)
    } else {
        let (start, done, any, its) = choose|
            start: ExtView,
            done: ExtView,
            inside: Tally,
            tally: Tally,
        | #[trigger]
            acted_nested(vm, engine, before, start, done, after, inside, tally);
        lemma_nested(vm, engine, before, start, done, after, any, its);
        let (params, result) = choose|params: ParamsView, result: EvmResult| #[trigger]
            vm.ran(engine, params, start, done, result);
        let inside = lemma_run(vm, engine, params, start, done, result);
        lemma_nested_sum(vm, engine, before, start, done, after, any, its, inside)
    }
}

/// What a sequence of operations of a machine that reaches the world only through the
/// externalities does. Returns a trail of them with their tallies, and the sum.
proof fn lemma_trail<E: Engine, V: Evm<E>>(
    vm: V,
    engine: E,
    before: ExtView,
    trail: Seq<ExtView>,
    after: ExtView,
) -> (found: (Seq<(ExtView, Tally, Tally)>, Tally))
    requires
        through_externalities(vm, engine),
        before.schedule == engine.schedule_in(before.info),
        reached(vm, engine, before, trail, after),
    ensures
        same_run(before, after),
        grown(before.substate, after.substate),
        starts_at(before, found.0, after),
        reached_tallied(vm, engine, before, found.0, after, found.1, headroom(engine, before)),
    decreases headroom(engine, before), 1nat, trail.len(),
{
    if trail.len() == 0 {
        (Seq::empty(), Tally::zero())
    } else {
        let last = trail.last();
        let (shorter, so_far) = lemma_trail(vm, engine, before, trail.drop_last(), last);
        let more = lemma_act(vm, engine, last, after);
        lemma_grown(before.substate, last.substate, after.substate);
        let longer = shorter.push((last, so_far, more));
        assert(longer.drop_last() =~= shorter);
        assert(longer.last() == (last, so_far, more));
        (longer, so_far.plus(more))
    }
}

/// What a run of a machine that reaches the world only through the externalities does. Returns
/// its tally.
proof fn lemma_run<E: Engine, V: Evm<E>>(
    vm: V,
    engine: E,
    params: ParamsView,
    before: ExtView,
    after: ExtView,
    result: EvmResult,
) -> (tally: Tally)
    requires
        through_externalities(vm, engine),
        before.schedule == engine.schedule_in(before.info),
        vm.ran(engine, params, before, after, result),
    ensures
        same_run(before, after),
        grown(before.substate, after.substate),
        ran_tallied(vm, engine, before, after, tally, headroom(engine, before)),
    decreases headroom(engine, before), 2nat, 0nat,
{
    let trail = choose|trail: Seq<ExtView>| reached(vm, engine, before, trail, after);
    let (found, tally) = lemma_trail(vm, engine, before, trail, after);
    tally
}

/// Losses are all or nothing of `2^256`, and there are none where all balances together fit into a
/// word.
pub proof fn lemma_losses(before: World, after: World, tally: Tally)
    requires
        before.state.well_formed(),
        tallies(before, after, tally),
    ensures
        after.state.supply() <= before.state.supply(),
        after.state.supply() % two_256() == before.state.supply() % two_256(),
        before.state.sound() ==> tally.losses == 0 && after.state.sound(),
{
}

/// A run of a machine that reaches the world only through the externalities makes no value,
/// keeps the supply modulo `2^256`, and as a number where all balances together fit into a word.
/// It only adds to the substate, and stays in the block, at the depth and with the rules that it
/// started with.
pub proof fn law_run<E: Engine, V: Evm<E>>(
    vm: V,
    engine: E,
    params: ParamsView,
    before: ExtView,
    after: ExtView,
    result: EvmResult,
)
    requires
        through_externalities(vm, engine),
        before.schedule == engine.schedule_in(before.info),
        before.state.well_formed(),
        vm.ran(engine, params, before, after, result),
    ensures
        exists|tally: Tally| #[trigger]
            ran_tallied(vm, engine, before, after, tally, headroom(engine, before)),
        same_run(before, after),
        after.state.well_formed(),
        after.state.supply() <= before.state.supply(),
        after.state.supply() % two_256() == before.state.supply() % two_256(),
        before.state.sound() ==> after.state.supply() == before.state.supply(),
        grown(before.substate, after.substate),
{
    let tally = lemma_run(vm, engine, params, before, after, result);
    law_run_tallies(vm, engine, before, after, tally, headroom(engine, before));
    lemma_losses(before.world(), after.world(), tally);
}

/// A run of a machine that reaches the world only through the externalities lowers no nonce,
/// unless one overflows in it.
pub proof fn law_run_keeps_nonces<E: Engine, V: Evm<E>>(
    vm: V,
    engine: E,
    params: ParamsView,
    start: ExtView,
    done: ExtView,
    result: EvmResult,
    a: Seq<u8>,
)
    requires
        through_externalities(vm, engine),
        start.schedule == engine.schedule_in(start.info),
        vm.ran(engine, params, start, done, result),
        forall|tally: Tally| #[trigger]
            ran_tallied(vm, engine, start, done, tally, headroom(engine, start)) ==> tally.wraps
                == 0,
    ensures
        start.state.nonce(a) <= done.state.nonce(a),
{
    let tally = lemma_run(vm, engine, params, start, done, result);
    law_run_tallies(vm, engine, start, done, tally, headroom(engine, start));
}

/// Whether a call can take the world from `before` to `after` and end with `result`, with the
/// given tally.
pub open spec fn call_tallied<E: Engine, V: Evm<E>>(
    vm: V,
    engine: E,
    info: EnvInfo,
    depth: nat,
    params: ParamsView,
    before: World,
    output: OutputView,
    after: World,
    result: EvmResult,
    tally: Tally,
) -> bool {
    let start = call_start(engine, info, depth, params, before, output);
    let transfer = Tally::transfer(before.state, params.sender, params.address, params.value);
    if engine.builtin_at(params.address) || params.code.len() == 0 {
        after == start.world() && tally == transfer
    } else {
        exists|done: ExtView, inside: Tally|
            {
                &&& vm.ran(engine, params, start, done, result)
                &&& #[trigger] ran_tallied(
                    vm,
                    engine,
                    start,
                    done,
                    inside,
                    headroom(engine, start),
                )
                &&& after == settle(before.state, done.world(), result)
                &&& tally == transfer.plus(inside).settled(result)
            }
    }
}

/// Whether a creation can take the world from `before` to `after` and end with `result`, with
/// the given tally.
pub open spec fn creation_tallied<E: Engine, V: Evm<E>>(
    vm: V,
    engine: E,
    info: EnvInfo,
    depth: nat,
    params: ParamsView,
    before: World,
    after: World,
    result: EvmResult,
    tally: Tally,
) -> bool {
    let start = creation_start(engine, info, depth, params, before);
    let transfer = Tally::transfer(
        before.state.new_contract(params.address),
        params.sender,
        params.address,
        params.value,
    );
    exists|done: ExtView, inside: Tally|
        {
            &&& vm.ran(engine, params, start, done, result)
            &&& #[trigger] ran_tallied(vm, engine, start, done, inside, headroom(engine, start))
            &&& after == settle(before.state, done.world(), result)
            &&& tally == transfer.plus(inside).settled(result)
        }
}

/// What a call does with a machine that reaches the world only through the externalities.
/// Returns its tally.
pub proof fn lemma_call<E: Engine, V: Evm<E>>(
    vm: V,
    engine: E,
    info: EnvInfo,
    depth: nat,
    params: ParamsView,
    before: World,
    output: OutputView,
    after: World,
    returned: OutputView,
    result: EvmResult,
) -> (tally: Tally)
    requires
        through_externalities(vm, engine),
        called(vm, engine, info, depth, params, before, output, after, returned, result),
    ensures
        call_tallied(vm, engine, info, depth, params, before, output, after, result, tally),
        grown(before.substate, after.substate),
        before.substate.refunds_count < two_256() ==> after.substate.refunds_count == (
        before.substate.refunds_count + tally.clears) % two_256(),
{
    let start = call_start(engine, info, depth, params, before, output);
    let transfer = Tally::transfer(before.state, params.sender, params.address, params.value);
    if engine.builtin_at(params.address) || params.code.len() == 0 {
        transfer
    } else {
        let done = choose|done: ExtView|
            {
                &&& #[trigger] vm.ran(engine, params, start, done, result)
                &&& after == settle(before.state, done.world(), result)
            };
        let inside = lemma_run(vm, engine, params, start, done, result);
        law_run_tallies(vm, engine, start, done, inside, headroom(engine, start));
        transfer.plus(inside).settled(result)
    }
}

/// What a creation does with a machine that reaches the world only through the externalities.
/// Returns its tally.
pub proof fn lemma_creation<E: Engine, V: Evm<E>>(
    vm: V,
    engine: E,
    info: EnvInfo,
    depth: nat,
    params: ParamsView,
    before: World,
    after: World,
    result: EvmResult,
) -> (tally: Tally)
    requires
        through_externalities(vm, engine),
        created(vm, engine, info, depth, params, before, after, result),
    ensures
        creation_tallied(vm, engine, info, depth, params, before, after, result, tally),
        grown(before.substate, after.substate),
        before.substate.refunds_count < two_256() ==> after.substate.refunds_count == (
        before.substate.refunds_count + tally.clears) % two_256(),
{
    let start = creation_start(engine, info, depth, params, before);
    let transfer = Tally::transfer(
        before.state.new_contract(params.address),
        params.sender,
        params.address,
        params.value,
    );
    let done = choose|done: ExtView|
        {
            &&& #[trigger] vm.ran(engine, params, start, done, result)
            &&& after == settle(before.state, done.world(), result)
        };
    let inside = lemma_run(vm, engine, params, start, done, result);
    law_run_tallies(vm, engine, start, done, inside, headroom(engine, start));
    transfer.plus(inside).settled(result)
}

/// A call whose sender can pay its value agrees with its tally: the supply, the nonces and the
/// count of refunds are what it says.
pub proof fn law_call_tallies<E: Engine, V: Evm<E>>(
    vm: V,
    engine: E,
    info: EnvInfo,
    depth: nat,
    params: ParamsView,
    before: World,
    output: OutputView,
    after: World,
    result: EvmResult,
    tally: Tally,
)
    requires
        params.value <= before.state.balance(params.sender),
        call_tallied(vm, engine, info, depth, params, before, output, after, result, tally),
    ensures
        tallies(before, after, tally),
{
    let start = call_start(engine, info, depth, params, before, output);
    let transfer = Tally::transfer(before.state, params.sender, params.address, params.value);
    lemma_transfer_tallies(before, params.sender, params.address, params.value);
    if !engine.builtin_at(params.address) && params.code.len() > 0 {
        let (done, inside) = choose|done: ExtView, inside: Tally|
            {
                &&& vm.ran(engine, params, start, done, result)
                &&& #[trigger] ran_tallied(
                    vm,
                    engine,
                    start,
                    done,
                    inside,
                    headroom(engine, start),
                )
                &&& after == settle(before.state, done.world(), result)
                &&& tally == transfer.plus(inside).settled(result)
            };
        law_run_tallies(vm, engine, start, done, inside, headroom(engine, start));
        lemma_tallies_plus(before, start.world(), done.world(), transfer, inside);
        lemma_settled(before, done.world(), transfer.plus(inside), result);
    }
}

/// A creation whose sender can pay its value agrees with its tally: the supply, the nonces and
/// the count of refunds are what it says.
pub proof fn law_creation_tallies<E: Engine, V: Evm<E>>(
    vm: V,
    engine: E,
    info: EnvInfo,
    depth: nat,
    params: ParamsView,
    before: World,
    after: World,
    result: EvmResult,
    tally: Tally,
)
    requires
        params.value <= before.state.balance(params.sender),
        creation_tallied(vm, engine, info, depth, params, before, after, result, tally),
    ensures
        tallies(before, after, tally),
{
    let start = creation_start(engine, info, depth, params, before);
    let transfer = Tally::transfer(
        before.state.new_contract(params.address),
        params.sender,
        params.address,
        params.value,
    );
    let (done, inside) = choose|done: ExtView, inside: Tally|
        {
            &&& vm.ran(engine, params, start, done, result)
            &&& #[trigger] ran_tallied(vm, engine, start, done, inside, headroom(engine, start))
            &&& after == settle(before.state, done.world(), result)
            &&& tally == transfer.plus(inside).settled(result)
        };
    lemma_creation_start(engine, info, depth, params, before);
    law_run_tallies(vm, engine, start, done, inside, headroom(engine, start));
    lemma_tallies_plus(before, start.world(), done.world(), transfer, inside);
    lemma_settled(before, done.world(), transfer.plus(inside), result);
}

/// With a machine that reaches the world only through the externalities, a call whose sender can
/// pay its value makes no value, and keeps the supply unless the call makes a balance overflow.
/// Where all balances together fit into a word, none does.
pub proof fn law_call_keeps_supply<E: Engine, V: Evm<E>>(
    vm: V,
    engine: E,
    info: EnvInfo,
    depth: nat,
    params: ParamsView,
    before: World,
    output: OutputView,
    after: World,
    returned: OutputView,
    result: EvmResult,
)
    requires
        through_externalities(vm, engine),
        before.state.well_formed(),
        params.value <= before.state.balance(params.sender),
        called(vm, engine, info, depth, params, before, output, after, returned, result),
    ensures
        after.state.well_formed(),
        after.state.supply() <= before.state.supply(),
        after.state.supply() % two_256() == before.state.supply() % two_256(),
        (before.state.sound() || forall|tally: Tally| #[trigger]
            call_tallied(
                vm,
                engine,
                info,
                depth,
                params,
                before,
                output,
                after,
                result,
                tally,
            ) ==> tally.losses == 0) ==> after.state.supply() == before.state.supply(),
{
    let tally = lemma_call(
        vm,
        engine,
        info,
        depth,
        params,
        before,
        output,
        after,
        returned,
        result,
    );
    law_call_tallies(vm, engine, info, depth, params, before, output, after, result, tally);
    lemma_losses(before, after, tally);
}

/// With a machine that reaches the world only through the externalities, a creation whose sender
/// can pay its value makes no value, and keeps the supply unless the creation makes a balance
/// overflow. Where all balances together fit into a word, none does.
pub proof fn law_creation_keeps_supply<E: Engine, V: Evm<E>>(
    vm: V,
    engine: E,
    info: EnvInfo,
    depth: nat,
    params: ParamsView,
    before: World,
    after: World,
    result: EvmResult,
)
    requires
        through_externalities(vm, engine),
        before.state.well_formed(),
        params.value <= before.state.balance(params.sender),
        created(vm, engine, info, depth, params, before, after, result),
    ensures
        after.state.well_formed(),
        after.state.supply() <= before.state.supply(),
        after.state.supply() % two_256() == before.state.supply() % two_256(),
        (before.state.sound() || forall|tally: Tally| #[trigger]
            creation_tallied(
                vm,
                engine,
                info,
                depth,
                params,
                before,
                after,
                result,
                tally,
            ) ==> tally.losses == 0) ==> after.state.supply() == before.state.supply(),
{
    let tally = lemma_creation(vm, engine, info, depth, params, before, after, result);
    law_creation_tallies(vm, engine, info, depth, params, before, after, result, tally);
    lemma_losses(before, after, tally);
}

/// With a machine that reaches the world only through the externalities, a call only adds to the
/// substate, however it ends: what was noted before it stays noted, and the count of refunds
/// does not fall unless the refunds that the call earns make it overflow.
pub proof fn law_call_grows_substate<E: Engine, V: Evm<E>>(
    vm: V,
    engine: E,
    info: EnvInfo,
    depth: nat,
    params: ParamsView,
    before: World,
    output: OutputView,
    after: World,
    returned: OutputView,
    result: EvmResult,
)
    requires
        through_externalities(vm, engine),
        before.substate.refunds_count < two_256(),
        called(vm, engine, info, depth, params, before, output, after, returned, result),
    ensures
        grown(before.substate, after.substate),
        (forall|tally: Tally| #[trigger]
            call_tallied(
                vm,
                engine,
                info,
                depth,
                params,
                before,
                output,
                after,
                result,
                tally,
            ) ==> before.substate.refunds_count + tally.clears < two_256())
            ==> before.substate.refunds_count <= after.substate.refunds_count,
{
    let tally = lemma_call(
        vm,
        engine,
        info,
        depth,
        params,
        before,
        output,
        after,
        returned,
        result,
    );
}

/// With a machine that reaches the world only through the externalities, a creation only adds to
/// the substate, however it ends: what was noted before it stays noted, and the count of refunds
/// does not fall unless the refunds that the creation earns make it overflow.
pub proof fn law_creation_grows_substate<E: Engine, V: Evm<E>>(
    vm: V,
    engine: E,
    info: EnvInfo,
    depth: nat,
    params: ParamsView,
    before: World,
    after: World,
    result: EvmResult,
)
    requires
        through_externalities(vm, engine),
        before.substate.refunds_count < two_256(),
        created(vm, engine, info, depth, params, before, after, result),
    ensures
        grown(before.substate, after.substate),
        (forall|tally: Tally| #[trigger]
            creation_tallied(
                vm,
                engine,
                info,
                depth,
                params,
                before,
                after,
                result,
                tally,
            ) ==> before.substate.refunds_count + tally.clears < two_256())
            ==> before.substate.refunds_count <= after.substate.refunds_count,
{
    let tally = lemma_creation(vm, engine, info, depth, params, before, after, result);
}

/// With a machine that reaches the world only through the externalities, a call whose sender can
/// pay its value lowers no nonce, unless one overflows in it.
pub proof fn law_call_keeps_nonces<E: Engine, V: Evm<E>>(
    vm: V,
    engine: E,
    info: EnvInfo,
    depth: nat,
    params: ParamsView,
    before: World,
    output: OutputView,
    after: World,
    returned: OutputView,
    result: EvmResult,
    a: Seq<u8>,
)
    requires
        through_externalities(vm, engine),
        params.value <= before.state.balance(params.sender),
        called(vm, engine, info, depth, params, before, output, after, returned, result),
        forall|tally: Tally| #[trigger]
            call_tallied(
                vm,
                engine,
                info,
                depth,
                params,
                before,
                output,
                after,
                result,
                tally,
            ) ==> tally.wraps == 0,
    ensures
        before.state.nonce(a) <= after.state.nonce(a),
{
    let tally = lemma_call(
        vm,
        engine,
        info,
        depth,
        params,
        before,
        output,
        after,
        returned,
        result,
    );
    law_call_tallies(vm, engine, info, depth, params, before, output, after, result, tally);
}

/// With a machine that reaches the world only through the externalities, a creation whose sender
/// can pay its value lowers no nonce, unless one overflows in it.
pub proof fn law_creation_keeps_nonces<E: Engine, V: Evm<E>>(
    vm: V,
    engine: E,
    info: EnvInfo,
    depth: nat,
    params: ParamsView,
    before: World,
    after: World,
    result: EvmResult,
    a: Seq<u8>,
)
    requires
        through_externalities(vm, engine),
        params.value <= before.state.balance(params.sender),
        created(vm, engine, info, depth, params, before, after, result),
        forall|tally: Tally| #[trigger]
            creation_tallied(
                vm,
                engine,
                info,
                depth,
                params,
                before,
                after,
                result,
                tally,
            ) ==> tally.wraps == 0,
    ensures
        before.state.nonce(a) <= after.state.nonce(a),
{
    let tally = lemma_creation(vm, engine, info, depth, params, before, after, result);
    law_creation_tallies(vm, engine, info, depth, params, before, after, result, tally);
}

/// With a machine that reaches the world only through the externalities, a creation made from
/// within a run takes the creator's nonce for good, however it ends: afterwards the nonce is at
/// least one higher, and no other nonce is lower, unless a nonce overflows.
pub proof fn law_nested_creation_takes_nonce<E: Engine, V: Evm<E>>(
    vm: V,
    engine: E,
    before: ExtView,
    gas: nat,
    value: nat,
    code: Seq<u8>,
    after: ExtView,
    outcome: (U256, Option<Address>),
    a: Seq<u8>,
)
    requires
        through_externalities(vm, engine),
        before.may_descend(value),
        before.state.nonce(before.params.address) + 1 < two_256(),
        created_within(vm, engine, before, before.create_params(gas, value, code), after, outcome),
        forall|result: EvmResult, tally: Tally| #[trigger]
            creation_tallied(
                vm,
                engine,
                before.info,
                before.depth + 1,
                before.create_params(gas, value, code),
                World {
                    state: before.state.inc_nonce(before.params.address),
                    substate: before.substate,
                },
                after.world(),
                result,
                tally,
            ) ==> tally.wraps == 0,
    ensures
        before.state.nonce(before.params.address) + 1 <= after.state.nonce(before.params.address),
        before.state.nonce(a) <= after.state.nonce(a),
{
    let params = before.create_params(gas, value, code);
    let address = before.params.address;
    let taken = World { state: before.state.inc_nonce(address), substate: before.substate };
    let (world, result) = choose|world: World, result: EvmResult|
        {
            &&& #[trigger] created(
                vm,
                engine,
                before.info,
                before.depth + 1,
                params,
                taken,
                world,
                result,
            )
            &&& after == before.with_world(world)
        };
    lemma_word_add(before.state.nonce(address), 1);
    assert(after.world() == world);
    law_creation_keeps_nonces(
        vm,
        engine,
        before.info,
        before.depth + 1,
        params,
        taken,
        world,
        result,
        address,
    );
    law_creation_keeps_nonces(
        vm,
        engine,
        before.info,
        before.depth + 1,
        params,
        taken,
        world,
        result,
        a,
    );
}

/// With a frugal machine, a creation made from within a run leaves no more gas than there was.
pub proof fn law_nested_creation_gas<E: Engine, V: Evm<E>>(
    vm: V,
    engine: E,
    before: ExtView,
    gas: nat,
    value: nat,
    code: Seq<u8>,
    after: ExtView,
    outcome: (U256, Option<Address>),
)
    requires
        frugal(vm, engine),
        created_within(vm, engine, before, before.create_params(gas, value, code), after, outcome),
    ensures
        outcome.0@ <= gas,
{
}

/// The stipend that comes with a value is paid for by the price of passing the value on: what
/// the callee gets is never more than what the call costs, and less if value is passed on, unless
/// the cost overflows.
pub proof fn law_stipend_is_paid_for(
    ext: ExtView,
    call_gas: nat,
    receive_address: Seq<u8>,
    value: nat,
    code_address: Seq<u8>,
)
    requires
        value > 0 ==> ext.schedule.call_value_transfer_gas > ext.schedule.call_stipend,
        call_gas + ext.schedule.call_new_account_gas + ext.schedule.call_value_transfer_gas
            < two_256(),
    ensures
        ({
            let cost = ext.call_cost(call_gas, receive_address, value, code_address);
            &&& ext.callee_gas(call_gas, value) <= cost
            &&& value > 0 ==> ext.callee_gas(call_gas, value) < cost
        }),
{
    lemma_word_add(call_gas, ext.schedule.call_new_account_gas as nat);
    lemma_word_add(call_gas, ext.schedule.call_stipend as nat);
    lemma_word_add(call_gas, ext.schedule.call_value_transfer_gas as nat);
    lemma_word_add(
        call_gas + ext.schedule.call_new_account_gas as nat,
        ext.schedule.call_value_transfer_gas as nat,
    );
}

/// With a frugal machine, a call made from within a run leaves no more gas than there was, and
/// less if value is passed on, unless its cost overflows.
pub proof fn law_nested_call_gas<E: Engine, V: Evm<E>>(
    vm: V,
    engine: E,
    before: ExtView,
    gas: nat,
    call_gas: nat,
    receive_address: Seq<u8>,
    value: nat,
    data: Seq<u8>,
    code_address: Seq<u8>,
    output: Seq<u8>,
    after: ExtView,
    returned: Seq<u8>,
    outcome: Result<(U256, bool), evm::Error>,
)
    requires
        frugal(vm, engine),
        value > 0 ==> before.schedule.call_value_transfer_gas > before.schedule.call_stipend,
        call_gas + before.schedule.call_new_account_gas + before.schedule.call_value_transfer_gas
            < two_256(),
        before.call_cost(call_gas, receive_address, value, code_address) <= gas < two_256(),
        called_within(
            vm,
            engine,
            before,
            before.call_params(call_gas, receive_address, value, data, code_address),
            (gas - before.call_cost(call_gas, receive_address, value, code_address)) as nat,
            output,
            after,
            returned,
            outcome,
        ),
    ensures
        outcome matches Ok((left, _)) && left@ <= gas && (value > 0 ==> left@ < gas),
        returned.len() == output.len(),
{
    let kept = (gas - before.call_cost(call_gas, receive_address, value, code_address)) as nat;
    law_stipend_is_paid_for(before, call_gas, receive_address, value, code_address);
    let callee = before.callee_gas(call_gas, value);
    assert forall|gas_left: nat| gas_left <= callee implies #[trigger] word_add(kept, gas_left)
        == kept + gas_left by {
        lemma_word_add(kept, gas_left);
    }
}

} // verus!
