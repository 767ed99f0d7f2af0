//! Transaction Execution environment.

use crate::bytes::copy_bytes;
use crate::engine::Engine;
use crate::env::{EnvInfo, Schedule};
use crate::error::{CryptoError, Error, ExecutionError, UtilError};
use crate::evm::{self, Evm, EvmResult};
use crate::externalities::{ExtView, Externalities};
use crate::hash::{keccak256, keccak_digest, Address, H256};
use crate::output::{OutputBuffer, OutputPolicy, OutputView};
use crate::rlp::{encode_address_nonce, rlp_address_nonce};
use crate::state::{State, StateView};
use crate::substate::{
    address_views, log_views, AddressSet, LogEntry, LogView, Substate, SubstateView,
};
use crate::transaction::{Action, ActionParams, ParamsView, Transaction};
use crate::uint::{lemma_small_product, lemma_word_sub, lesser, two_256, two_512, word_add, word_mul, word_sub, U256, U512};
use vstd::prelude::*;

verus! {

/// The address of the contract that an account creates at a nonce.
pub open spec fn created_address(address: Seq<u8>, nonce: nat) -> Seq<u8> {
    keccak_digest(rlp_address_nonce(address, nonce)).subrange(12, 32)
}

/// Returns new address created from address and given nonce.
pub fn contract_address(address: &Address, nonce: &U256) -> (created: Address)
    ensures
        created@ == created_address(address@, nonce@),
{
    let encoding: Vec<u8> = encode_address_nonce(address, nonce);
    let hash: H256 = H256 { bytes: keccak256(encoding.as_slice()) };
    Address::from_hash(&hash)
}

/// What an execution works on: the world state and the substate.
#[verifier::ext_equal]
pub ghost struct World {
    pub state: StateView,
    pub substate: SubstateView,
}

/// What becomes of the world when a run ends: running out of gas takes the state back
/// to what it was and is noted in the substate.
pub open spec fn settle(backup: StateView, done: World, result: EvmResult) -> World {
    if result == Err::<U256, evm::Error>(evm::Error::OutOfGas) {
        World { state: backup, substate: SubstateView { out_of_gas: true, ..done.substate } }
    } else {
        done
    }
}

/// The externalities in which the code of a call starts: the value has been transferred.
pub open spec fn call_start<E: Engine>(
    engine: E,
    info: EnvInfo,
    depth: nat,
    params: ParamsView,
    before: World,
    output: OutputView,
) -> ExtView {
    ExtView {
        state: before.state.transfer_balance(params.sender, params.address, params.value),
        info,
        depth,
        params,
        substate: before.substate,
        schedule: engine.schedule_in(info),
        output,
        init_contract: false,
    }
}

/// The externalities in which the code of a creation starts: the contract is there, and the
/// value has been transferred to it.
pub open spec fn creation_start<E: Engine>(
    engine: E,
    info: EnvInfo,
    depth: nat,
    params: ParamsView,
    before: World,
) -> ExtView {
    ExtView {
        state: before.state.new_contract(params.address).transfer_balance(
            params.sender,
            params.address,
            params.value,
        ),
        info,
        depth,
        params,
        substate: before.substate,
        schedule: engine.schedule_in(info),
        output: OutputView::Flexible(Seq::empty()),
        init_contract: true,
    }
}

/// Whether a call can take the world from `before` to `after` and the output buffer
/// from `output` to `returned`, and end with `result`.
pub open spec fn called<E: Engine, V: Evm<E>>(
    vm: V,
    engine: E,
    info: EnvInfo,
    depth: nat,
    params: ParamsView,
    before: World,
    output: OutputView,
    after: World,
    returned: OutputView,
    result: EvmResult,
) -> bool {
    let paid = World {
        state: before.state.transfer_balance(params.sender, params.address, params.value),
        ..before
    };
    if engine.builtin_at(params.address) {
        let cost = engine.builtin_cost(params.address, params.data);
        &&& after == paid
        &&& result matches Ok(gas_left)
        &&& if cost <= params.gas {
            &&& gas_left@ == params.gas - cost
            &&& returned == engine.builtin_output(params.address, params.data, output)
            &&& returned.shaped_as(output)
        } else {
            &&& gas_left@ == 0
            &&& returned == output
        }
    } else if params.code.len() > 0 {
        exists|done: ExtView|
            {
                &&& #[trigger] vm.ran(
                    engine,
                    params,
                    call_start(engine, info, depth, params, before, output),
                    done,
                    result,
                )
                &&& after == settle(before.state, done.world(), result)
                &&& returned == done.output
                &&& returned.shaped_as(output)
            }
    } else {
        &&& after == paid
        &&& returned == output
        &&& result matches Ok(gas_left)
        &&& gas_left@ == params.gas
    }
}

/// Whether a creation can take the world from `before` to `after` and end with
/// `result`.
pub open spec fn created<E: Engine, V: Evm<E>>(
    vm: V,
    engine: E,
    info: EnvInfo,
    depth: nat,
    params: ParamsView,
    before: World,
    after: World,
    result: EvmResult,
) -> bool {
    exists|done: ExtView|
        {
            &&& #[trigger] vm.ran(
                engine,
                params,
                creation_start(engine, info, depth, params, before),
                done,
                result,
            )
            &&& after == settle(before.state, done.world(), result)
        }
}

/// Transaction execution receipt.
#[derive(Debug)]
pub struct Executed {
    /// Gas paid up front for execution of transaction.
    pub gas: U256,
    /// Gas used during execution of transaction.
    pub gas_used: U256,
    /// Gas refunded after the execution of transaction.
    /// To get gas that was required up front, add `refunded` and `gas_used`.
    pub refunded: U256,
    /// Cumulative gas used in current block so far.
    ///
    /// `cumulative_gas_used = gas_used(t0) + gas_used(t1) + ... gas_used(tn)`
    ///
    /// where `tn` is current transaction.
    pub cumulative_gas_used: U256,
    /// Vector of logs generated by transaction.
    pub logs: Vec<LogEntry>,
    /// Execution ended running out of gas.
    pub out_of_gas: bool,
    /// Addresses of contracts created during execution of transaction.
    /// Ordered from earliest creation.
    ///
    /// eg. sender creates contract A and A in constructor creates contract B
    ///
    /// B creation ends first, and it will be the first element of the vector.
    pub contracts_created: Vec<Address>,
}

/// What a receipt says.
#[verifier::ext_equal]
pub ghost struct ExecutedView {
    pub gas: nat,
    pub gas_used: nat,
    pub refunded: nat,
    pub cumulative_gas_used: nat,
    pub logs: Seq<LogView>,
    pub out_of_gas: bool,
    pub contracts_created: Seq<Seq<u8>>,
}

impl View for Executed {
    type V = ExecutedView;

    open spec fn view(&self) -> ExecutedView {
        ExecutedView {
            gas: self.gas@,
            gas_used: self.gas_used@,
            refunded: self.refunded@,
            cumulative_gas_used: self.cumulative_gas_used@,
            logs: log_views(self.logs@),
            out_of_gas: self.out_of_gas,
            contracts_created: address_views(self.contracts_created@),
        }
    }
}

/// Transaction execution result.
pub type ExecutionResult = Result<Executed, ExecutionError>;

/// The gas that clearing storage slots and removing accounts has earned.
pub open spec fn earned_refund(schedule: Schedule, substate: SubstateView) -> nat {
    word_add(
        word_mul(schedule.sstore_refund_gas as nat, substate.refunds_count),
        schedule.suicide_refund_gas as nat * substate.suicides.len(),
    )
}

/// The gas that goes back to the sender: what is left, and what was earned up to half of
/// what was used.
pub open spec fn refund(
    schedule: Schedule,
    substate: SubstateView,
    gas: nat,
    gas_left: nat,
) -> nat {
    word_add(lesser(earned_refund(schedule, substate), word_sub(gas, gas_left) / 2), gas_left)
}

/// The state after a transaction of which `gas_left` was left has been finalized: the sender
/// gets the refund, the author of the block the fees, and the marked accounts are removed.
pub open spec fn paid_out(
    state: StateView,
    schedule: Schedule,
    author: Seq<u8>,
    sender: Seq<u8>,
    gas: nat,
    gas_price: nat,
    substate: SubstateView,
    gas_left: nat,
) -> StateView {
    let refunded = refund(schedule, substate, gas, gas_left);
    state.add_balance(sender, word_mul(refunded, gas_price)).add_balance(
        author,
        word_mul(word_sub(gas, refunded), gas_price),
    ).kill_accounts(substate.suicides)
}

/// The receipt of a transaction of which `gas_left` was left.
pub open spec fn receipt(
    schedule: Schedule,
    block_gas_used: nat,
    gas: nat,
    substate: SubstateView,
    gas_left: nat,
) -> ExecutedView {
    let refunded = refund(schedule, substate, gas, gas_left);
    ExecutedView {
        gas,
        gas_used: word_sub(gas, refunded),
        refunded,
        cumulative_gas_used: word_add(block_gas_used, word_sub(gas, refunded)),
        logs: substate.logs,
        out_of_gas: substate.out_of_gas,
        contracts_created: substate.contracts_created,
    }
}

/// The receipt of a transaction that ran out of gas.
pub open spec fn failure_receipt(block_gas_used: nat, gas: nat) -> ExecutedView {
    ExecutedView {
        gas,
        gas_used: gas,
        refunded: 0,
        cumulative_gas_used: word_add(block_gas_used, gas),
        logs: Seq::empty(),
        out_of_gas: true,
        contracts_created: Seq::empty(),
    }
}

/// Whether finalizing a transaction takes the state from `before` to `after` with the given
/// outcome.
pub open spec fn finalized(
    schedule: Schedule,
    info: EnvInfo,
    t: Transaction,
    substate: SubstateView,
    result: EvmResult,
    before: StateView,
    after: StateView,
    outcome: ExecutionResult,
) -> bool {
    match result {
        Ok(gas_left) => {
            &&& after == paid_out(
                before,
                schedule,
                info.author@,
                t.signer->0@,
                t.gas@,
                t.gas_price@,
                substate,
                gas_left@,
            )
            &&& outcome matches Ok(executed)
            &&& executed@ == receipt(
                schedule,
                info.gas_used@,
                t.gas@,
                substate,
                gas_left@,
            )
        },
        Err(evm::Error::OutOfGas) => {
            &&& after == before
            &&& outcome matches Ok(executed)
            &&& executed@ == failure_receipt(info.gas_used@, t.gas@)
        },
        Err(evm::Error::Internal) => {
            &&& after == before
            &&& outcome matches Err(error)
            &&& error == ExecutionError::Internal
        },
    }
}

/// What a transaction costs its sender at most.
pub open spec fn total_cost(t: Transaction) -> nat {
    t.value@ + t.gas@ * t.gas_price@
}

/// Whether a transaction is executed: it carries a valid signature and its sender's nonce,
/// fits into the block, and can be paid for.
pub open spec fn accepted(state: StateView, info: EnvInfo, t: Transaction) -> bool {
    &&& t.signer matches Some(sender)
    &&& t.nonce@ == state.nonce(sender@)
    &&& info.gas_used@ + t.gas@ <= info.gas_limit@
    &&& total_cost(t) <= state.balance(sender@)
}

/// Whether `error` is why a transaction is refused.
pub open spec fn refused(state: StateView, info: EnvInfo, t: Transaction, error: Error) -> bool {
    match t.signer {
        None => error == Error::Util(UtilError::Crypto(CryptoError::InvalidSignature)),
        Some(sender) => {
            if t.nonce@ != state.nonce(sender@) {
                &&& error matches Error::Execution(ExecutionError::InvalidNonce { expected, is: nonce })
                &&& expected@ == state.nonce(sender@)
                &&& nonce == t.nonce
            } else if info.gas_used@ + t.gas@ > info.gas_limit@ {
                error == Error::Execution(
                    ExecutionError::BlockGasLimitReached {
                        gas_limit: info.gas_limit,
                        gas_used: info.gas_used,
                        gas: t.gas,
                    },
                )
            } else {
                &&& state.balance(sender@) < total_cost(t)
                &&& error matches Error::Execution(ExecutionError::NotEnoughCash {
                    required,
                    is: balance,
                })
                &&& required@ == total_cost(t)
                &&& balance@ == state.balance(sender@)
            }
        },
    }
}

/// The state in which the execution of an accepted transaction starts: its nonce is taken,
/// and its gas is paid for.
pub open spec fn charged(state: StateView, t: Transaction) -> StateView {
    let sender = t.signer->0@;
    state.inc_nonce(sender).sub_balance(sender, t.gas@ * t.gas_price@)
}

/// The parameters that an accepted transaction is executed with.
pub open spec fn transaction_params(
    state: StateView,
    schedule: Schedule,
    t: Transaction,
) -> ParamsView {
    let sender = t.signer->0@;
    ParamsView {
        address: match t.action {
            Action::Create => created_address(sender, t.nonce@),
            Action::Call(to) => to@,
        },
        sender,
        origin: sender,
        gas: word_sub(t.gas@, t.base_gas(schedule)),
        gas_price: t.gas_price@,
        value: t.value@,
        code: match t.action {
            Action::Create => t.data@,
            Action::Call(to) => state.code(to@),
        },
        data: match t.action {
            Action::Create => Seq::empty(),
            Action::Call(to) => t.data@,
        },
    }
}

/// Whether the execution of an accepted transaction can take the world from its start in the
/// charged state to `after` and end with `result`.
pub open spec fn executed<E: Engine, V: Evm<E>>(
    vm: V,
    engine: E,
    info: EnvInfo,
    depth: nat,
    t: Transaction,
    start: StateView,
    after: World,
    result: EvmResult,
) -> bool {
    let params = transaction_params(start, engine.schedule_in(info), t);
    let before = World { state: start, substate: SubstateView::empty() };
    match t.action {
        Action::Create => created(vm, engine, info, depth, params, before, after, result),
        Action::Call(_) => called_freely(vm, engine, info, depth, params, before, after, result),
    }
}

/// Whether a call whose output goes into a flexible buffer that is then dropped can take the
/// world from `before` to `after` and end with `result`.
pub open spec fn called_freely<E: Engine, V: Evm<E>>(
    vm: V,
    engine: E,
    info: EnvInfo,
    depth: nat,
    params: ParamsView,
    before: World,
    after: World,
    result: EvmResult,
) -> bool {
    exists|returned: OutputView| #[trigger]
        called(
            vm,
            engine,
            info,
            depth,
            params,
            before,
            OutputView::Flexible(Seq::empty()),
            after,
            returned,
            result,
        )
}

/// Whether an accepted transaction can take the state from `before` to `after` and have the
/// given outcome: its execution and its finalization, one after the other.
pub open spec fn transacted<E: Engine, V: Evm<E>>(
    vm: V,
    engine: E,
    info: EnvInfo,
    depth: nat,
    t: Transaction,
    before: StateView,
    after: StateView,
    outcome: Result<Executed, Error>,
) -> bool {
    exists|world: World, result: EvmResult, receipt: ExecutionResult|
        {
            &&& #[trigger] executed(
                vm,
                engine,
                info,
                depth,
                t,
                charged(before, t),
                world,
                result,
            )
            &&& #[trigger] finalized(
                engine.schedule_in(info),
                info,
                t,
                world.substate,
                result,
                world.state,
                after,
                receipt,
            )
            &&& outcome == match receipt {
                Ok(executed) => Ok::<Executed, Error>(executed),
                Err(error) => Err(Error::Execution(error)),
            }
        }
}

/// Transaction executor.
pub struct Executive<'a, E: Engine> {
    pub state: &'a mut State,
    pub info: &'a EnvInfo,
    pub engine: &'a E,
    pub depth: usize,
}

/// The cost of a transaction fits into 512 bits.
proof fn lemma_cost_fits(value: U256, gas: U256, gas_price: U256)
    ensures
        value@ + gas@ * gas_price@ < two_512(),
{
    let most: int = two_256() - 1;
    assert(gas@ * gas_price@ <= most * most) by (nonlinear_arith)
        requires
            gas@ <= most,
            gas_price@ <= most,
    ;
}

/// Whether a block has room for some more gas.
fn fits_into_block(info: &EnvInfo, gas: &U256) -> (fits: bool)
    ensures
        fits == (info.gas_used@ + gas@ <= info.gas_limit@),
{
    let sum: U512 = U512::from_u256(info.gas_used).wrapping_add(U512::from_u256(*gas));
    sum <= U512::from_u256(info.gas_limit)
}

impl<'a, E: Engine> Executive<'a, E> {
    /// Whether two executives belong to the same block, chain and depth.
    pub open spec fn same_frame(&self, other: &Self) -> bool {
        &&& self.info == other.info
        &&& self.engine == other.engine
        &&& self.depth == other.depth
    }

    /// Basic constructor.
    pub fn new(state: &'a mut State, info: &'a EnvInfo, engine: &'a E) -> (executive: Self)
        ensures
            *executive.state == *old(state),
            *final(executive.state) == *final(state),
            executive.info == info,
            executive.engine == engine,
            executive.depth == 0,
    {
        Executive::new_with_depth(state, info, engine, 0)
    }

    /// Populates executive from parent properties. Increments executive depth.
    pub fn from_parent(
        state: &'a mut State,
        info: &'a EnvInfo,
        engine: &'a E,
        depth: usize,
    ) -> (executive: Self)
        requires
            depth < usize::MAX,
        ensures
            *executive.state == *old(state),
            *final(executive.state) == *final(state),
            executive.info == info,
            executive.engine == engine,
            executive.depth == depth + 1,
    {
        Executive::new_with_depth(state, info, engine, depth + 1)
    }

    /// Helper constructor. Should be used to create `Executive` with desired depth.
    fn new_with_depth(
        state: &'a mut State,
        info: &'a EnvInfo,
        engine: &'a E,
        depth: usize,
    ) -> (executive: Self)
        ensures
            *executive.state == *old(state),
            *final(executive.state) == *final(state),
            executive.info == info,
            executive.engine == engine,
            executive.depth == depth,
    {
        Executive { state, info, engine, depth }
    }

    /// This funtion should be used to execute transaction.
    #[verifier::spinoff_prover]
    #[verifier::rlimit(40)]
    pub fn transact<V: Evm<E>>(&mut self, vm: &V, t: &Transaction) -> (outcome: Result<
        Executed,
        Error,
    >)
        ensures
            *final(final(self).state) == *final(old(self).state),
            final(self).same_frame(&*old(self)),
            !accepted(old(self).state@, *old(self).info, *t) ==> {
                &&& final(self).state@ == old(self).state@
                &&& outcome matches Err(error)
                &&& refused(old(self).state@, *old(self).info, *t, error)
            },
            accepted(old(self).state@, *old(self).info, *t) ==> transacted(
                *vm,
                *old(self).engine,
                *old(self).info,
                old(self).depth as nat,
                *t,
                old(self).state@,
                final(self).state@,
                outcome,
            ),
    {
        let sender: Address = match t.sender() {
            Ok(sender) => sender,
            Err(error) => return Err(Error::Util(UtilError::Crypto(error))),
        };
        let nonce: U256 = self.state.nonce(&sender);

        // validate transaction nonce
        if t.nonce != nonce {
            return Err(
                Error::Execution(ExecutionError::InvalidNonce { expected: nonce, is: t.nonce }),
            );
        }
        // validate if transaction fits into given block

        if !fits_into_block(self.info, &t.gas) {
            return Err(
                Error::Execution(
                    ExecutionError::BlockGasLimitReached {
                        gas_limit: self.info.gas_limit,
                        gas_used: self.info.gas_used,
                        gas: t.gas,
                    },
                ),
            );
        }
        let balance: U256 = self.state.balance(&sender);
        let gas_cost: U512 = t.gas.full_mul(t.gas_price);
        let cost: U512 = U512::from_u256(t.value).wrapping_add(gas_cost);
        proof {
            lemma_cost_fits(t.value, t.gas, t.gas_price);
        }

        // avoid unaffordable transactions
        if U512::from_u256(balance) < cost {
            return Err(
                Error::Execution(
                    ExecutionError::NotEnoughCash { required: cost, is: U512::from_u256(balance) },
                ),
            );
        }
        // NOTE: there can be no invalid transactions from this point.

        self.state.inc_nonce(&sender);
        self.state.sub_balance(&sender, &gas_cost.low_u256());
        let ghost start = self.state@;
        assert(start == charged(old(self).state@, *t));

        let mut substate: Substate = Substate::new();

        let schedule: Schedule = self.engine.schedule(self.info);
        let init_gas: U256 = t.gas.wrapping_sub(t.gas_required(&schedule));

        let result: EvmResult = match t.action {
            Action::Create => {
                let params: ActionParams = ActionParams {
                    address: contract_address(&sender, &nonce),
                    sender,
                    origin: sender,
                    gas: init_gas,
                    gas_price: t.gas_price,
                    value: t.value,
                    code: copy_bytes(t.data.as_slice()),
                    data: Vec::new(),
                };
                assert(params@ =~= transaction_params(start, schedule, *t));
                self.create(vm, &params, &mut substate)
            },
            Action::Call(address) => {
                let code: Vec<u8> = match self.state.code(&address) {
                    Some(code) => code,
                    None => Vec::new(),
                };
                let params: ActionParams = ActionParams {
                    address,
                    sender,
                    origin: sender,
                    gas: init_gas,
                    gas_price: t.gas_price,
                    value: t.value,
                    code,
                    data: copy_bytes(t.data.as_slice()),
                };
                assert(params@ =~= transaction_params(start, schedule, *t));
                let mut out: OutputBuffer = OutputBuffer::Flexible(Vec::new());
                assert(out@ =~= OutputView::Flexible(Seq::empty()));
                self.call(vm, &params, &mut substate, &mut out)
            },
        };
        let ghost world = World { state: self.state@, substate: substate@ };
        assert(executed(
            *vm,
            *old(self).engine,
            *old(self).info,
            old(self).depth as nat,
            *t,
            charged(old(self).state@, *t),
            world,
            result,
        ));

        // finalize here!
        let receipt: ExecutionResult = self.finalize(t, substate, result);
        assert(finalized(
            old(self).engine.schedule_in(*old(self).info),
            *old(self).info,
            *t,
            world.substate,
            result,
            world.state,
            self.state@,
            receipt,
        ));
        match receipt {
            Ok(executed) => Ok(executed),
            Err(error) => Err(Error::Execution(error)),
        }
    }

    /// Calls contract function with given contract params.
    /// NOTE. It does not finalize the transaction (doesn't do refunds, nor suicides).
    /// Modifies the substate and the output.
    /// Returns either gas_left or `evm::Error`.
    pub fn call<V: Evm<E>>(
        &mut self,
        vm: &V,
        params: &ActionParams,
        substate: &mut Substate,
        output: &mut OutputBuffer,
    ) -> (result: EvmResult)
        ensures
            *final(final(self).state) == *final(old(self).state),
            final(self).same_frame(&*old(self)),
            called(
                *vm,
                *old(self).engine,
                *old(self).info,
                old(self).depth as nat,
                params@,
                World { state: old(self).state@, substate: old(substate)@ },
                old(output)@,
                World { state: final(self).state@, substate: final(substate)@ },
                final(output)@,
                result,
            ),
            final(output)@.shaped_as(old(output)@),
    {
        // backup used in case of running out of gas
        let backup: State = (*self.state).clone();

        // at first, transfer value to destination
        self.state.transfer_balance(&params.sender, &params.address, &params.value);

        if self.engine.is_builtin(&params.address) {
            // if destination is builtin, try to execute it
            let cost: U256 = self.engine.cost_of_builtin(&params.address, &params.data);
            if cost <= params.gas {
                self.engine.execute_builtin(&params.address, &params.data, output);
                proof {
                    lemma_word_sub(params.gas@, cost@);
                }
                Ok(params.gas.wrapping_sub(cost))
            } else {
                // just drain the whole gas
                Ok(U256::zero())
            }
        } else if params.code.len() > 0 {
            // if destination is a contract, do normal message call
            let mut buffer: OutputBuffer = OutputBuffer::Flexible(Vec::new());
            std::mem::swap(&mut buffer, output);
            let mut ext: Externalities<'_, E> = Externalities::from_executive(
                self,
                params,
                substate,
                OutputPolicy::Return(buffer),
            );
            let result: EvmResult = vm.exec(params, &mut ext);
            *output = ext.give_back(self, substate);
            self.revert_if_needed(&result, substate, backup);
            result
        } else {
            // otherwise, nothing
            Ok(params.gas)
        }
    }

    /// Creates contract with given contract params.
    /// NOTE. It does not finalize the transaction (doesn't do refunds, nor suicides).
    /// Modifies the substate.
    pub fn create<V: Evm<E>>(&mut self, vm: &V, params: &ActionParams, substate: &mut Substate) -> (result:
        EvmResult)
        ensures
            *final(final(self).state) == *final(old(self).state),
            final(self).same_frame(&*old(self)),
            created(
                *vm,
                *old(self).engine,
                *old(self).info,
                old(self).depth as nat,
                params@,
                World { state: old(self).state@, substate: old(substate)@ },
                World { state: final(self).state@, substate: final(substate)@ },
                result,
            ),
    {
        // backup used in case of running out of gas
        let backup: State = (*self.state).clone();

        // at first create new contract
        self.state.new_contract(&params.address);

        // then transfer value to it
        self.state.transfer_balance(&params.sender, &params.address, &params.value);

        let mut ext: Externalities<'_, E> = Externalities::from_executive(
            self,
            params,
            substate,
            OutputPolicy::InitContract,
        );
        let result: EvmResult = vm.exec(params, &mut ext);
        let _ = ext.give_back(self, substate);
        self.revert_if_needed(&result, substate, backup);
        result
    }

    /// Finalizes the transaction (does refunds and suicides).
    pub fn finalize(&mut self, t: &Transaction, substate: Substate, result: EvmResult) -> (outcome:
        ExecutionResult)
        requires
            result is Ok ==> t.signer is Some,
        ensures
            *final(final(self).state) == *final(old(self).state),
            final(self).same_frame(&*old(self)),
            finalized(
                old(self).engine.schedule_in(*old(self).info),
                *old(self).info,
                *t,
                substate@,
                result,
                old(self).state@,
                final(self).state@,
                outcome,
            ),
    {
        match result {
            Err(evm::Error::Internal) => Err(ExecutionError::Internal),
            Ok(gas_left) => {
                let schedule: Schedule = self.engine.schedule(self.info);
                let sender: Address = t.signer.unwrap();

                // refunds from SSTORE nonzero -> zero
                let sstore_refunds: U256 = U256::from_u64(schedule.sstore_refund_gas).wrapping_mul(
                    substate.refunds_count,
                );
                // refunds from contract suicides
                let removed: usize = substate.suicides.len();
                let suicide_refunds: U256 = U256::from_u64(
                    schedule.suicide_refund_gas,
                ).wrapping_mul(U256::from_usize(removed));
                proof {
                    lemma_small_product(schedule.suicide_refund_gas as nat, removed as nat);
                }

                // real ammount to refund
                let earned: U256 = sstore_refunds.wrapping_add(suicide_refunds);
                let most: U256 = t.gas.wrapping_sub(gas_left).half();
                let extra: U256 = if earned <= most {
                    earned
                } else {
                    most
                };
                let refunded: U256 = extra.wrapping_add(gas_left);
                let refund_value: U256 = refunded.wrapping_mul(t.gas_price);
                self.state.add_balance(&sender, &refund_value);

                // fees earned by author
                let gas_used: U256 = t.gas.wrapping_sub(refunded);
                let fees_value: U256 = gas_used.wrapping_mul(t.gas_price);
                self.state.add_balance(&self.info.author, &fees_value);

                // perform suicides
                self.remove_accounts(&substate.suicides);

                let executed: Executed = Executed {
                    gas: t.gas,
                    gas_used,
                    refunded,
                    cumulative_gas_used: self.info.gas_used.wrapping_add(gas_used),
                    logs: substate.logs,
                    out_of_gas: substate.out_of_gas,
                    contracts_created: substate.contracts_created,
                };
                Ok(executed)
            },
            Err(evm::Error::OutOfGas) => {
                let executed: Executed = Executed {
                    gas: t.gas,
                    gas_used: t.gas,
                    refunded: U256::zero(),
                    cumulative_gas_used: self.info.gas_used.wrapping_add(t.gas),
                    logs: Vec::new(),
                    out_of_gas: true,
                    contracts_created: Vec::new(),
                };
                assert(executed@ =~= failure_receipt(self.info.gas_used@, t.gas@));
                Ok(executed)
            },
        }
    }

    /// Removes every account in a set from the state.
    fn remove_accounts(&mut self, dead: &AddressSet)
        ensures
            *final(final(self).state) == *final(old(self).state),
            final(self).same_frame(&*old(self)),
            final(self).state@ == old(self).state@.kill_accounts(dead@),
    {
        let items: &Vec<Address> = dead.items();
        let ghost keys = address_views(items@);
        let mut i: usize = 0;
        assert(self.state@ =~= old(self).state@.kill_accounts(keys.take(0).to_set()));
        while i < items.len()
            invariant
                i <= items@.len(),
                keys == address_views(items@),
                *final(self.state) == *final(old(self).state),
                self.same_frame(&*old(self)),
                self.state@ == old(self).state@.kill_accounts(keys.take(i as int).to_set()),
            decreases items@.len() - i,
        {
            self.state.kill_account(&items[i]);
            proof {
                let before = keys.take(i as int);
                assert(keys.take(i + 1) =~= before.push(keys[i as int]));
                before.lemma_push_to_set_commute(keys[i as int]);
                assert(self.state@ =~= old(self).state@.kill_accounts(keys.take(i + 1).to_set()));
            }
            i = i + 1;
        }
        assert(keys.take(i as int) =~= keys);
    }

    /// Takes the state back to the backup, and notes it, if the run was out of gas.
    pub fn revert_if_needed(&mut self, result: &EvmResult, substate: &mut Substate, backup: State)
        ensures
            *final(final(self).state) == *final(old(self).state),
            final(self).same_frame(&*old(self)),
            (World { state: final(self).state@, substate: final(substate)@ }) == settle(
                backup@,
                World { state: old(self).state@, substate: old(substate)@ },
                *result,
            ),
    {
        match result {
            Err(evm::Error::OutOfGas) => {
                substate.out_of_gas = true;
                self.state.revert(backup);
            },
            Err(evm::Error::Internal) => {},
            Ok(_) => {},
        }
    }
}

} // verus!
