//! What the virtual machine asks of, and does to, the world around it.

use crate::bytes::copy_bytes;
use crate::engine::Engine;
use crate::env::{EnvInfo, Schedule};
use crate::evm::{self, Evm, EvmResult};
use crate::executive::{called, contract_address, created, created_address, Executive, World};
use crate::hash::{zero_hash, Address, H256};
use crate::output::{OutputBuffer, OutputPolicy, OutputView};
use crate::state::{State, StateView};
use crate::substate::{LogEntry, LogView, Substate, SubstateView};
use crate::transaction::{ActionParams, ParamsView};
use crate::uint::{lemma_small_product, lemma_word_sub, word_add, U256};
use vstd::prelude::*;

verus! {

/// What the externalities of a run hold.
#[verifier::ext_equal]
pub ghost struct ExtView {
    pub state: StateView,
    pub info: EnvInfo,
    pub depth: nat,
    pub params: ParamsView,
    pub substate: SubstateView,
    pub schedule: Schedule,
    /// The buffer that data is returned into.
    pub output: OutputView,
    /// Whether returned data is the code of a new contract instead.
    pub init_contract: bool,
}

impl ExtView {
    /// The state and the substate.
    pub open spec fn world(self) -> World {
        World { state: self.state, substate: self.substate }
    }

    /// With another state and substate.
    pub open spec fn with_world(self, world: World) -> ExtView {
        ExtView { state: world.state, substate: world.substate, ..self }
    }

    /// The value in a storage slot of the running account.
    pub open spec fn sload(self, key: Seq<u8>) -> Seq<u8> {
        self.state.storage_at(self.params.address, key)
    }

    /// Whether a value that is put into a storage slot of the running account clears it, and
    /// it was not clear.
    pub open spec fn clears(self, key: Seq<u8>, value: Seq<u8>) -> bool {
        value == zero_hash() && self.sload(key) != zero_hash()
    }

    /// After a value has been put into a storage slot of the running account. Clearing a
    /// slot that was not clear earns a refund.
    pub open spec fn sstore(self, key: Seq<u8>, value: Seq<u8>) -> ExtView {
        ExtView {
            state: self.state.set_storage(self.params.address, key, value),
            substate: SubstateView {
                refunds_count: if self.clears(key, value) {
                    word_add(self.substate.refunds_count, 1)
                } else {
                    self.substate.refunds_count
                },
                ..self.substate
            },
            ..self
        }
    }

    /// Whether a block is one of the 256 that precede the current one.
    pub open spec fn is_recent(self, number: nat) -> bool {
        0 < self.info.number - number <= 256
    }

    /// Whether the running account can pay a value, and calls may be nested deeper.
    pub open spec fn may_descend(self, value: nat) -> bool {
        &&& value <= self.state.balance(self.params.address)
        &&& self.depth < self.schedule.max_depth
    }

    /// The parameters of a contract creation by the running account.
    pub open spec fn create_params(self, gas: nat, value: nat, code: Seq<u8>) -> ParamsView {
        ParamsView {
            address: created_address(self.params.address, self.state.nonce(self.params.address)),
            sender: self.params.address,
            origin: self.params.origin,
            gas,
            gas_price: self.params.gas_price,
            value,
            code,
            data: Seq::empty(),
        }
    }

    /// What a call costs the caller before it is made.
    pub open spec fn call_cost(
        self,
        call_gas: nat,
        receive_address: Seq<u8>,
        value: nat,
        code_address: Seq<u8>,
    ) -> nat {
        let opened = if receive_address == code_address && !self.state.account_exists(
            code_address,
        ) {
            word_add(call_gas, self.schedule.call_new_account_gas as nat)
        } else {
            call_gas
        };
        if value > 0 {
            word_add(opened, self.schedule.call_value_transfer_gas as nat)
        } else {
            opened
        }
    }

    /// The gas that the callee gets: with value comes the stipend.
    pub open spec fn callee_gas(self, call_gas: nat, value: nat) -> nat {
        if value > 0 {
            word_add(call_gas, self.schedule.call_stipend as nat)
        } else {
            call_gas
        }
    }

    /// The parameters of a call by the running account.
    pub open spec fn call_params(
        self,
        call_gas: nat,
        receive_address: Seq<u8>,
        value: nat,
        data: Seq<u8>,
        code_address: Seq<u8>,
    ) -> ParamsView {
        ParamsView {
            address: receive_address,
            sender: self.params.address,
            origin: self.params.origin,
            gas: self.callee_gas(call_gas, value),
            gas_price: self.params.gas_price,
            value,
            code: self.state.code(code_address),
            data,
        }
    }

    /// After the running account has made an entry in the log.
    pub open spec fn log(self, topics: Seq<Seq<u8>>, data: Seq<u8>) -> ExtView {
        let entry = LogView { address: self.params.address, topics, data };
        ExtView {
            substate: SubstateView { logs: self.substate.logs.push(entry), ..self.substate },
            ..self
        }
    }

    /// After the running account has paid its balance out and been marked for removal.
    pub open spec fn suicide(self, refund_address: Seq<u8>) -> ExtView {
        let address = self.params.address;
        ExtView {
            state: self.state.transfer_balance(
                address,
                refund_address,
                self.state.balance(address),
            ),
            substate: SubstateView {
                suicides: self.substate.suicides.insert(address),
                ..self.substate
            },
            ..self
        }
    }

    /// After data has been returned by code that has `gas` left. Returned into a buffer, it
    /// is written there; returned by the code of a new contract, it is the contract's code,
    /// if the gas pays for it.
    pub open spec fn returned(self, gas: nat, data: Seq<u8>) -> ExtView {
        if !self.init_contract {
            ExtView { output: self.output.written(data), ..self }
        } else if self.code_price(data) > gas {
            self
        } else {
            ExtView {
                state: self.state.init_code(self.params.address, data),
                substate: SubstateView {
                    contracts_created: self.substate.contracts_created.push(self.params.address),
                    ..self.substate
                },
                ..self
            }
        }
    }

    /// The price of storing the code of a new contract.
    pub open spec fn code_price(self, code: Seq<u8>) -> nat {
        code.len() * self.schedule.create_data_gas as nat
    }
}

/// Whether a creation with the given parameters, made from within a run, can take the
/// externalities from `before` to `after` and have the given outcome.
pub open spec fn created_within<E: Engine, V: Evm<E>>(
    vm: V,
    engine: E,
    before: ExtView,
    params: ParamsView,
    after: ExtView,
    outcome: (U256, Option<Address>),
) -> bool {
    exists|world: World, result: EvmResult|
        {
            &&& #[trigger] created(
                vm,
                engine,
                before.info,
                before.depth + 1,
                params,
                World {
                    state: before.state.inc_nonce(before.params.address),
                    substate: before.substate,
                },
                world,
                result,
            )
            &&& after == before.with_world(world)
            &&& match result {
                Ok(gas_left) => {
                    &&& outcome.0 == gas_left
                    &&& outcome.1 matches Some(address)
                    &&& address@ == params.address
                },
                Err(_) => outcome.0@ == 0 && outcome.1 is None,
            }
        }
}

/// Whether a call with the given parameters, made from within a run into a fixed buffer,
/// can take the externalities from `before` to `after` and the buffer from `output` to
/// `returned`, and have the given outcome, where the caller keeps `gas` for itself.
pub open spec fn called_within<E: Engine, V: Evm<E>>(
    vm: V,
    engine: E,
    before: ExtView,
    params: ParamsView,
    gas: nat,
    output: Seq<u8>,
    after: ExtView,
    returned: Seq<u8>,
    outcome: Result<(U256, bool), evm::Error>,
) -> bool {
    exists|world: World, buffer: OutputView, result: EvmResult|
        {
            &&& #[trigger] called(
                vm,
                engine,
                before.info,
                before.depth + 1,
                params,
                before.world(),
                OutputView::Fixed(output),
                world,
                buffer,
                result,
            )
            &&& after == before.with_world(world)
            &&& returned == buffer.bytes()
            &&& outcome matches Ok((left, success))
            &&& match result {
                Ok(gas_left) => left@ == word_add(gas, gas_left@) && success,
                Err(_) => left@ == gas && !success,
            }
        }
}

/// Implementation of evm Externalities.
pub struct Externalities<'a, E: Engine> {
    state: State,
    info: &'a EnvInfo,
    engine: &'a E,
    depth: usize,
    params: &'a ActionParams,
    substate: Substate,
    schedule: Schedule,
    output: OutputBuffer,
    init_contract: bool,
}

impl<'a, E: Engine> View for Externalities<'a, E> {
    type V = ExtView;

    closed spec fn view(&self) -> ExtView {
        ExtView {
            state: self.state@,
            info: *self.info,
            depth: self.depth as nat,
            params: self.params@,
            substate: self.substate@,
            schedule: self.schedule,
            output: self.output@,
            init_contract: self.init_contract,
        }
    }
}

impl<'a, E: Engine> Externalities<'a, E> {
    /// The rules that the run follows.
    pub closed spec fn chain(&self) -> E {
        *self.engine
    }

    /// Basic `Externalities` constructor.
    pub fn new(
        state: State,
        info: &'a EnvInfo,
        engine: &'a E,
        depth: usize,
        params: &'a ActionParams,
        substate: Substate,
        output: OutputPolicy,
    ) -> (ext: Self)
        ensures
            ext.chain() == *engine,
            ext@ == (ExtView {
                state: state@,
                info: *info,
                depth: depth as nat,
                params: params@,
                substate: substate@,
                schedule: engine.schedule_in(*info),
                output: match output {
                    OutputPolicy::Return(buffer) => buffer@,
                    OutputPolicy::InitContract => OutputView::Flexible(Seq::empty()),
                },
                init_contract: output is InitContract,
            }),
    {
        let (buffer, init_contract) = match output {
            OutputPolicy::Return(buffer) => (buffer, false),
            OutputPolicy::InitContract => (OutputBuffer::Flexible(Vec::new()), true),
        };
        let schedule: Schedule = engine.schedule(info);
        Externalities {
            state,
            info,
            engine,
            depth,
            params,
            substate,
            schedule,
            output: buffer,
            init_contract,
        }
    }

    /// Creates `Externalities` from `Executive`, whose state and substate they hold until
    /// they give them back.
    pub(crate) fn from_executive<'b: 'a>(
        e: &mut Executive<'b, E>,
        params: &'a ActionParams,
        substate: &mut Substate,
        output: OutputPolicy,
    ) -> (ext: Self)
        ensures
            *final(final(e).state) == *final(old(e).state),
            final(e).same_frame(&*old(e)),
            ext.chain() == *old(e).engine,
            ext@ == (ExtView {
                state: old(e).state@,
                info: *old(e).info,
                depth: old(e).depth as nat,
                params: params@,
                substate: old(substate)@,
                schedule: old(e).engine.schedule_in(*old(e).info),
                output: match output {
                    OutputPolicy::Return(buffer) => buffer@,
                    OutputPolicy::InitContract => OutputView::Flexible(Seq::empty()),
                },
                init_contract: output is InitContract,
            }),
    {
        let mut held: State = State::new_temp();
        std::mem::swap(&mut held, e.state);
        let mut held_substate: Substate = Substate::new();
        std::mem::swap(&mut held_substate, substate);
        Self::new(held, e.info, e.engine, e.depth, params, held_substate, output)
    }

    /// Gives the state and the substate back, and returns the output buffer.
    pub(crate) fn give_back<'b>(self, e: &mut Executive<'b, E>, substate: &mut Substate) -> (output:
        OutputBuffer)
        ensures
            *final(final(e).state) == *final(old(e).state),
            final(e).same_frame(&*old(e)),
            final(e).state@ == self@.state,
            final(substate)@ == self@.substate,
            output@ == self@.output,
    {
        let (held, held_substate, output) = self.into_parts();
        *e.state = held;
        *substate = held_substate;
        output
    }

    /// The state, the substate and the output buffer as they are now.
    pub fn into_parts(self) -> (parts: (State, Substate, OutputBuffer))
        ensures
            parts.0@ == self@.state,
            parts.1@ == self@.substate,
            parts.2@ == self@.output,
    {
        (self.state, self.substate, self.output)
    }

    /// The value in a storage slot of the running account.
    pub fn sload(&self, key: &H256) -> (value: H256)
        ensures
            value@ == self@.sload(key@),
    {
        self.state.storage_at(&self.params.address, key)
    }

    /// Puts a value into a storage slot of the running account.
    pub fn sstore(&mut self, key: H256, value: H256)
        ensures
            final(self).chain() == old(self).chain(),
            final(self)@ == old(self)@.sstore(key@, value@),
    {
        // if SSTORE nonzero -> zero, increment refund count
        if value.same(&H256::new()) && !self.state.storage_at(&self.params.address, &key).same(
            &H256::new(),
        ) {
            self.substate.refunds_count = self.substate.refunds_count.wrapping_add(U256::one());
        }
        self.state.set_storage(&self.params.address, key, value);
    }

    /// The balance of an account.
    pub fn balance(&self, address: &Address) -> (balance: U256)
        ensures
            balance@ == self@.state.balance(address@),
    {
        self.state.balance(address)
    }

    /// The hash of one of the 256 blocks before the current one, zero for any other
    /// number.
    pub fn blockhash(&self, number: &U256) -> (hash: H256)
        requires
            self@.is_recent(number@) ==> self@.info.number - number@
                <= self@.info.last_hashes@.len(),
        ensures
            hash@ == if self@.is_recent(number@) {
                self@.info.last_hashes@[self@.info.number - number@ - 1]@
            } else {
                zero_hash()
            },
    {
        let current: u64 = self.info.number;
        let low: u64 = number.low_u64();
        let oldest: u64 = if current > 256 {
            current - 256
        } else {
            0
        };
        if *number < U256::from_u64(current) && low >= oldest {
            let index: u64 = current - low - 1;
            self.info.last_hashes[index as usize]
        } else {
            H256::new()
        }
    }

    /// Creates a contract from within the running code. Returns the gas that is left, and
    /// the address of the contract if it was created.
    pub fn create<V: Evm<E>>(&mut self, vm: &V, gas: &U256, value: &U256, code: &[u8]) -> (outcome: (
        U256,
        Option<Address>,
    ))
        ensures
            final(self).chain() == old(self).chain(),
            !old(self)@.may_descend(value@) ==> {
                &&& final(self)@ == old(self)@
                &&& outcome == (*gas, None::<Address>)
            },
            old(self)@.may_descend(value@) ==> created_within(
                *vm,
                old(self).chain(),
                old(self)@,
                old(self)@.create_params(gas@, value@, code@),
                final(self)@,
                outcome,
            ),
    {
        // if balance is insufficient or we are to deep, return
        if self.state.balance(&self.params.address) < *value || self.depth
            >= self.schedule.max_depth {
            return (*gas, None);
        }
        // create new contract address

        let address: Address = contract_address(
            &self.params.address,
            &self.state.nonce(&self.params.address),
        );

        // prepare the params
        let params: ActionParams = ActionParams {
            address,
            sender: self.params.address,
            origin: self.params.origin,
            gas: *gas,
            gas_price: self.params.gas_price,
            value: *value,
            code: copy_bytes(code),
            data: Vec::new(),
        };

        let mut ex: Executive<'_, E> = Executive::from_parent(
            &mut self.state,
            self.info,
            self.engine,
            self.depth,
        );
        ex.state.inc_nonce(&self.params.address);
        let result: EvmResult = ex.create(vm, &params, &mut self.substate);
        proof {
            assert(params@ =~= old(self)@.create_params(gas@, value@, code@));
            assert(self@ =~= old(self)@.with_world(self@.world()));
            assert(created(
                *vm,
                old(self).chain(),
                old(self)@.info,
                old(self)@.depth + 1,
                params@,
                World {
                    state: old(self)@.state.inc_nonce(old(self)@.params.address),
                    substate: old(self)@.substate,
                },
                self@.world(),
                result,
            ));
        }
        match result {
            Ok(gas_left) => (gas_left, Some(address)),
            Err(_) => (U256::zero(), None),
        }
    }

    /// What a call costs the caller before it is made, and the gas that the callee gets.
    pub fn price_call(
        &self,
        call_gas: &U256,
        receive_address: &Address,
        value: &U256,
        code_address: &Address,
    ) -> (prices: (U256, U256))
        ensures
            prices.0@ == self@.call_cost(call_gas@, receive_address@, value@, code_address@),
            prices.1@ == self@.callee_gas(call_gas@, value@),
    {
        let mut gas_cost: U256 = *call_gas;
        let mut callee_gas: U256 = *call_gas;

        let is_call: bool = receive_address.same(code_address);
        if is_call && !self.state.account_exists(code_address) {
            gas_cost = gas_cost.wrapping_add(U256::from_u64(self.schedule.call_new_account_gas));
        }
        if *value > U256::zero() {
            gas_cost =
            gas_cost.wrapping_add(U256::from_u64(self.schedule.call_value_transfer_gas));
            callee_gas = callee_gas.wrapping_add(U256::from_u64(self.schedule.call_stipend));
        }
        (gas_cost, callee_gas)
    }

    /// Calls an account from within the running code, with the code of another or its own.
    /// Returns the gas that is left and whether the call went well.
    #[verifier::spinoff_prover]
    #[verifier::rlimit(40)]
    pub fn call<V: Evm<E>>(
        &mut self,
        vm: &V,
        gas: &U256,
        call_gas: &U256,
        receive_address: &Address,
        value: &U256,
        data: &[u8],
        code_address: &Address,
        output: &mut Vec<u8>,
    ) -> (outcome: Result<(U256, bool), evm::Error>)
        requires
            value@ > 0 ==> old(self)@.schedule.call_value_transfer_gas
                > old(self)@.schedule.call_stipend,
        ensures
            final(self).chain() == old(self).chain(),
            final(output)@.len() == old(output)@.len(),
            ({
                let before = old(self)@;
                let cost = before.call_cost(
                    call_gas@,
                    receive_address@,
                    value@,
                    code_address@,
                );
                if cost > gas@ {
                    &&& outcome == Err::<(U256, bool), evm::Error>(evm::Error::OutOfGas)
                    &&& final(self)@ == before
                    &&& final(output)@ == old(output)@
                } else if !before.may_descend(value@) {
                    &&& outcome matches Ok((left, success))
                    &&& success
                    &&& left@ == word_add(
                        (gas@ - cost) as nat,
                        before.callee_gas(call_gas@, value@),
                    )
                    &&& final(self)@ == before
                    &&& final(output)@ == old(output)@
                } else {
                    called_within(
                        *vm,
                        old(self).chain(),
                        before,
                        before.call_params(
                            call_gas@,
                            receive_address@,
                            value@,
                            data@,
                            code_address@,
                        ),
                        (gas@ - cost) as nat,
                        old(output)@,
                        final(self)@,
                        final(output)@,
                        outcome,
                    )
                }
            }),
    {
        let (gas_cost, callee_gas) = self.price_call(
            call_gas,
            receive_address,
            value,
            code_address,
        );
        if gas_cost > *gas {
            return Err(evm::Error::OutOfGas);
        }
        proof {
            lemma_word_sub(gas@, gas_cost@);
        }
        let left: U256 = gas.wrapping_sub(gas_cost);

        // if balance is insufficient or we are to deep, return
        if self.state.balance(&self.params.address) < *value || self.depth
            >= self.schedule.max_depth {
            return Ok((left.wrapping_add(callee_gas), true));
        }
        let params: ActionParams = ActionParams {
            address: *receive_address,
            sender: self.params.address,
            origin: self.params.origin,
            gas: callee_gas,
            gas_price: self.params.gas_price,
            value: *value,
            code: self.extcode(code_address),
            data: copy_bytes(data),
        };

        let mut bytes: Vec<u8> = Vec::new();
        std::mem::swap(&mut bytes, output);
        let mut buffer: OutputBuffer = OutputBuffer::Fixed(bytes);
        let mut ex: Executive<'_, E> = Executive::from_parent(
            &mut self.state,
            self.info,
            self.engine,
            self.depth,
        );
        let result: EvmResult = ex.call(vm, &params, &mut self.substate, &mut buffer);
        let ghost returned = buffer@;
        *output = buffer.into_bytes();
        proof {
            let before = old(self)@;
            assert(params@ =~= before.call_params(
                call_gas@,
                receive_address@,
                value@,
                data@,
                code_address@,
            ));
            assert(self@ =~= before.with_world(self@.world()));
            assert(called(
                *vm,
                old(self).chain(),
                before.info,
                before.depth + 1,
                params@,
                before.world(),
                OutputView::Fixed(old(output)@),
                self@.world(),
                returned,
                result,
            ));
        }
        match result {
            Ok(gas_left) => Ok((left.wrapping_add(gas_left), true)),
            Err(_) => Ok((left, false)),
        }
    }

    /// The code of an account, empty where none exists.
    pub fn extcode(&self, address: &Address) -> (code: Vec<u8>)
        ensures
            code@ == self@.state.code(address@),
    {
        match self.state.code(address) {
            Some(code) => code,
            None => Vec::new(),
        }
    }

    /// Returns data from the running code. Returns the gas that is left.
    pub fn ret(&mut self, gas: &U256, data: &[u8]) -> (left: EvmResult)
        ensures
            final(self).chain() == old(self).chain(),
            final(self)@ == old(self)@.returned(gas@, data@),
            ({
                let before = old(self)@;
                if !before.init_contract {
                    left == Ok::<U256, evm::Error>(*gas)
                } else if before.code_price(data@) <= gas@ {
                    left matches Ok(rest) && rest@ == gas@ - before.code_price(data@)
                } else if before.schedule.exceptional_failed_code_deposit {
                    left == Err::<U256, evm::Error>(evm::Error::OutOfGas)
                } else {
                    left == Ok::<U256, evm::Error>(*gas)
                }
            }),
    {
        if !self.init_contract {
            self.output.write(data);
            return Ok(*gas);
        }
        let return_cost: U256 = U256::from_usize(data.len()).wrapping_mul(
            U256::from_u64(self.schedule.create_data_gas),
        );
        proof {
            lemma_small_product(data@.len(), self.schedule.create_data_gas as nat);
        }
        if return_cost > *gas {
            return if self.schedule.exceptional_failed_code_deposit {
                Err(evm::Error::OutOfGas)
            } else {
                Ok(*gas)
            };
        }
        self.state.init_code(&self.params.address, copy_bytes(data));
        self.substate.contracts_created.push(self.params.address);
        assert(self@ =~= old(self)@.returned(gas@, data@));
        proof {
            lemma_word_sub(gas@, return_cost@);
        }
        Ok(gas.wrapping_sub(return_cost))
    }

    /// Makes an entry in the log.
    pub fn log(&mut self, topics: Vec<H256>, data: Vec<u8>)
        ensures
            final(self).chain() == old(self).chain(),
            final(self)@ == old(self)@.log(topics@.map_values(|topic: H256| topic@), data@),
    {
        let entry: LogEntry = LogEntry { address: self.params.address, topics, data };
        self.substate.logs.push(entry);
        assert(self@ =~= old(self)@.log(topics@.map_values(|topic: H256| topic@), data@));
    }

    /// Pays the balance of the running account out and has it removed when the transaction
    /// is finalized.
    pub fn suicide(&mut self, refund_address: &Address)
        ensures
            final(self).chain() == old(self).chain(),
            final(self)@ == old(self)@.suicide(refund_address@),
    {
        let address: Address = self.params.address;
        let balance: U256 = self.balance(&address);
        self.state.transfer_balance(&address, refund_address, &balance);
        self.substate.suicides.insert(&address);
    }

    /// The gas schedule in force.
    pub fn schedule(&self) -> (schedule: &Schedule)
        ensures
            *schedule == self@.schedule,
    {
        &self.schedule
    }

    /// The block that the run belongs to.
    pub fn env_info(&self) -> (info: &EnvInfo)
        ensures
            *info == self@.info,
    {
        self.info
    }
}

} // verus!
