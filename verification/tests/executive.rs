use executive::engine::Engine;
use executive::env::{EnvInfo, Schedule};
use executive::error::{CryptoError, Error, ExecutionError, UtilError};
use executive::evm::{self, Evm, EvmResult};
use executive::executive::{contract_address, Executive};
use executive::externalities::Externalities;
use executive::hash::{Address, H256};
use executive::output::{OutputBuffer, OutputPolicy};
use executive::rlp::encode_address_nonce;
use executive::state::State;
use executive::substate::Substate;
use executive::transaction::{ActionParams, Transaction};
use executive::uint::{U256, U512};

fn from_hex(text: &str) -> Vec<u8> {
    (0..text.len() / 2).map(|i| u8::from_str_radix(&text[2 * i..2 * i + 2], 16).unwrap()).collect()
}

fn address(text: &str) -> Address {
    let mut bytes = [0u8; 20];
    bytes.copy_from_slice(&from_hex(text));
    Address { bytes }
}

fn number(x: u64) -> U256 {
    U256::from_u64(x)
}

fn hash_of(x: u64) -> H256 {
    H256::from_u256(&U256::from_u64(x))
}

fn word_of(bytes: &[u8; 32]) -> U256 {
    let mut hi = [0u8; 16];
    let mut lo = [0u8; 16];
    hi.copy_from_slice(&bytes[..16]);
    lo.copy_from_slice(&bytes[16..]);
    U256 { hi: u128::from_be_bytes(hi), lo: u128::from_be_bytes(lo) }
}

fn word_of_address(address: &Address) -> U256 {
    let mut bytes = [0u8; 32];
    bytes[12..].copy_from_slice(&address.bytes);
    word_of(&bytes)
}

/// The address of an arbitrary account that signs transactions.
fn signer() -> Address {
    address("cd1722f3947def4cf144679da39c4c32bdc35681")
}

struct TestEngine {
    max_depth: usize,
}

impl TestEngine {
    fn new(max_depth: usize) -> TestEngine {
        TestEngine { max_depth }
    }
}

/// The address at which the test chain has a built-in contract that returns its input
/// at a price of 15 for each call and 3 for each byte.
fn identity() -> Address {
    address("0000000000000000000000000000000000000004")
}

impl Engine for TestEngine {
    fn schedule(&self, _info: &EnvInfo) -> Schedule {
        let mut schedule = Schedule::new_frontier();
        schedule.max_depth = self.max_depth;
        schedule
    }

    fn is_builtin(&self, address: &Address) -> bool {
        *address == identity()
    }

    fn cost_of_builtin(&self, _address: &Address, input: &Vec<u8>) -> U256 {
        number(15 + 3 * input.len() as u64)
    }

    fn execute_builtin(&self, _address: &Address, input: &Vec<u8>, output: &mut OutputBuffer) {
        output.write(input);
    }
}

/// A machine for the few instructions that the tests need, at Frontier prices.
struct Interpreter;

struct Run {
    gas: U256,
    stack: Vec<U256>,
    memory: Vec<u8>,
}

impl Run {
    fn charge(&mut self, price: u64) -> Result<(), evm::Error> {
        if self.gas < number(price) {
            return Err(evm::Error::OutOfGas);
        }
        self.gas = self.gas.wrapping_sub(number(price));
        Ok(())
    }

    fn pop(&mut self) -> Result<U256, evm::Error> {
        self.stack.pop().ok_or(evm::Error::Internal)
    }

    fn pop_usize(&mut self) -> Result<usize, evm::Error> {
        Ok(self.pop()?.low_u64() as usize)
    }

    fn pop_address(&mut self) -> Result<Address, evm::Error> {
        let word = self.pop()?;
        Ok(Address::from_hash(&H256::from_u256(&word)))
    }

    fn touch(&mut self, offset: usize, size: usize) -> Result<(), evm::Error> {
        if size == 0 {
            return Ok(());
        }
        let price = |words: u64| 3 * words + words * words / 512;
        let before = (self.memory.len() / 32) as u64;
        let after = std::cmp::max(before, ((offset + size + 31) / 32) as u64);
        self.charge(price(after) - price(before))?;
        self.memory.resize(32 * after as usize, 0);
        Ok(())
    }
}

impl<E: Engine> Evm<E> for Interpreter {
    fn exec(&self, params: &ActionParams, ext: &mut Externalities<'_, E>) -> EvmResult {
        let mut run = Run { gas: params.gas, stack: vec![], memory: vec![] };
        let mut pc = 0;
        while pc < params.code.len() {
            let op = params.code[pc];
            match op {
                // STOP
                0x00 => return Ok(run.gas),
                // ADD
                0x01 => {
                    run.charge(3)?;
                    let sum = run.pop()?.wrapping_add(run.pop()?);
                    run.stack.push(sum);
                }
                // SUB
                0x03 => {
                    run.charge(3)?;
                    let difference = run.pop()?.wrapping_sub(run.pop()?);
                    run.stack.push(difference);
                }
                // ADDRESS
                0x30 => {
                    run.charge(2)?;
                    run.stack.push(word_of_address(&params.address));
                }
                // BALANCE
                0x31 => {
                    run.charge(20)?;
                    let account = run.pop_address()?;
                    run.stack.push(ext.balance(&account));
                }
                // CALLER
                0x33 => {
                    run.charge(2)?;
                    run.stack.push(word_of_address(&params.sender));
                }
                // CODECOPY
                0x39 => {
                    let to = run.pop_usize()?;
                    let from = run.pop_usize()?;
                    let size = run.pop_usize()?;
                    run.charge(3 + 3 * ((size + 31) / 32) as u64)?;
                    run.touch(to, size)?;
                    for i in 0..size {
                        run.memory[to + i] = *params.code.get(from + i).unwrap_or(&0);
                    }
                }
                // MSTORE
                0x52 => {
                    run.charge(3)?;
                    let offset = run.pop_usize()?;
                    let word = run.pop()?;
                    run.touch(offset, 32)?;
                    run.memory[offset..offset + 32].copy_from_slice(&H256::from_u256(&word).bytes);
                }
                // SLOAD
                0x54 => {
                    run.charge(50)?;
                    let key = H256::from_u256(&run.pop()?);
                    run.stack.push(word_of(&ext.sload(&key).bytes));
                }
                // SSTORE
                0x55 => {
                    let key = H256::from_u256(&run.pop()?);
                    let value = H256::from_u256(&run.pop()?);
                    let fills = ext.sload(&key) == H256::new() && value != H256::new();
                    run.charge(if fills { 20000 } else { 5000 })?;
                    ext.sstore(key, value);
                }
                // PC
                0x58 => {
                    run.charge(2)?;
                    run.stack.push(number(pc as u64));
                }
                // GAS
                0x5a => {
                    run.charge(2)?;
                    run.stack.push(run.gas);
                }
                // PUSH
                0x60..=0x7f => {
                    run.charge(3)?;
                    let size = (op - 0x5f) as usize;
                    let mut bytes = [0u8; 32];
                    bytes[32 - size..].copy_from_slice(&params.code[pc + 1..pc + 1 + size]);
                    run.stack.push(word_of(&bytes));
                    pc += size;
                }
                // DUP1
                0x80 => {
                    run.charge(3)?;
                    let top = run.pop()?;
                    run.stack.push(top);
                    run.stack.push(top);
                }
                // LOG0
                0xa0 => {
                    let offset = run.pop_usize()?;
                    let size = run.pop_usize()?;
                    run.charge(375 + 8 * size as u64)?;
                    run.touch(offset, size)?;
                    ext.log(vec![], run.memory[offset..offset + size].to_vec());
                }
                // CREATE
                0xf0 => {
                    run.charge(32000)?;
                    let value = run.pop()?;
                    let offset = run.pop_usize()?;
                    let size = run.pop_usize()?;
                    run.touch(offset, size)?;
                    let code = run.memory[offset..offset + size].to_vec();
                    let (gas, created) = ext.create(self, &run.gas, &value, &code);
                    run.gas = gas;
                    run.stack.push(match created {
                        Some(address) => word_of_address(&address),
                        None => U256::zero(),
                    });
                }
                // CALL
                0xf1 => {
                    run.charge(40)?;
                    let call_gas = run.pop()?;
                    let to = run.pop_address()?;
                    let value = run.pop()?;
                    let in_offset = run.pop_usize()?;
                    let in_size = run.pop_usize()?;
                    let out_offset = run.pop_usize()?;
                    let out_size = run.pop_usize()?;
                    run.touch(in_offset, in_size)?;
                    run.touch(out_offset, out_size)?;
                    let data = run.memory[in_offset..in_offset + in_size].to_vec();
                    let mut output = run.memory[out_offset..out_offset + out_size].to_vec();
                    let (gas, success) = ext.call(
                        self, &run.gas, &call_gas, &to, &value, &data, &to, &mut output,
                    )?;
                    run.memory[out_offset..out_offset + out_size].copy_from_slice(&output);
                    run.gas = gas;
                    run.stack.push(number(success as u64));
                }
                // RETURN
                0xf3 => {
                    let offset = run.pop_usize()?;
                    let size = run.pop_usize()?;
                    run.touch(offset, size)?;
                    let data = run.memory[offset..offset + size].to_vec();
                    return ext.ret(&run.gas, &data);
                }
                // SUICIDE
                0xff => {
                    let refund_address = run.pop_address()?;
                    ext.suicide(&refund_address);
                    return Ok(run.gas);
                }
                _ => return Err(evm::Error::Internal),
            }
            pc += 1;
        }
        Ok(run.gas)
    }
}

#[test]
fn test_contract_address() {
    let address = address("0f572e5295c57f15886f9b263e2f6d2d6c7b5ec6");
    let expected_address = self::address("3f09c73a5ed19289fb9bdc72f1742566df146f56");
    assert_eq!(expected_address, contract_address(&address, &number(88)));
}

#[test]
fn test_sender_balance() {
    let sender = address("0f572e5295c57f15886f9b263e2f6d2d6c7b5ec6");
    let address = contract_address(&sender, &U256::zero());
    let mut params = ActionParams::new();
    params.address = address;
    params.sender = sender;
    params.gas = number(100_000);
    params.code = from_hex("3331600055");
    params.value = number(0x7);
    let mut state = State::new_temp();
    state.add_balance(&sender, &number(0x100));
    let info = EnvInfo::new();
    let engine = TestEngine::new(0);
    let mut substate = Substate::new();

    let gas_left = {
        let mut ex = Executive::new(&mut state, &info, &engine);
        ex.create(&Interpreter, &params, &mut substate).unwrap()
    };

    assert_eq!(gas_left, number(79_975));
    assert_eq!(state.storage_at(&address, &H256::new()), hash_of(0xf9));
    assert_eq!(state.balance(&sender), number(0xf9));
    assert_eq!(state.balance(&address), number(0x7));
    // 0 cause contract hasn't returned
    assert_eq!(substate.contracts_created.len(), 0);
}

#[test]
fn test_create_contract() {
    // code:
    //
    // 7c 601080600c6000396000f3006000355415600957005b60203560003555 - push 29 bytes?
    // 60 00 - push 0
    // 52
    // 60 1d - push 29
    // 60 03 - push 3
    // 60 17 - push 17
    // f0 - create
    // 60 00 - push 0
    // 55 sstore
    //
    // other code:
    //
    // 60 10 - push 16
    // 80 - duplicate first stack item
    // 60 0c - push 12
    // 60 00 - push 0
    // 39 - copy current code to memory
    // 60 00 - push 0
    // f3 - return
    let code = from_hex("7c601080600c6000396000f3006000355415600957005b60203560003555600052601d60036017f0600055");

    let sender = address("cd1722f3947def4cf144679da39c4c32bdc35681");
    let address = contract_address(&sender, &U256::zero());
    let mut params = ActionParams::new();
    params.address = address;
    params.sender = sender;
    params.origin = sender;
    params.gas = number(100_000);
    params.code = code;
    params.value = number(100);
    let mut state = State::new_temp();
    state.add_balance(&sender, &number(100));
    let info = EnvInfo::new();
    let engine = TestEngine::new(0);
    let mut substate = Substate::new();

    let gas_left = {
        let mut ex = Executive::new(&mut state, &info, &engine);
        ex.create(&Interpreter, &params, &mut substate).unwrap()
    };

    assert_eq!(gas_left, number(62_976));
    // ended with max depth
    assert_eq!(substate.contracts_created.len(), 0);
}

#[test]
fn test_create_contract_value_too_high() {
    // as above, but
    //
    // 60 e6 - push 230
    // f0 - create a contract trying to send 230.
    let code = from_hex("7c601080600c6000396000f3006000355415600957005b60203560003555600052601d600360e6f0600055");

    let sender = address("cd1722f3947def4cf144679da39c4c32bdc35681");
    let address = contract_address(&sender, &U256::zero());
    let mut params = ActionParams::new();
    params.address = address;
    params.sender = sender;
    params.origin = sender;
    params.gas = number(100_000);
    params.code = code;
    params.value = number(100);
    let mut state = State::new_temp();
    state.add_balance(&sender, &number(100));
    let info = EnvInfo::new();
    let engine = TestEngine::new(0);
    let mut substate = Substate::new();

    let gas_left = {
        let mut ex = Executive::new(&mut state, &info, &engine);
        ex.create(&Interpreter, &params, &mut substate).unwrap()
    };

    assert_eq!(gas_left, number(62_976));
    assert_eq!(substate.contracts_created.len(), 0);
}

#[test]
fn test_create_contract_without_max_depth() {
    let code = from_hex("7c601080600c6000396000f3006000355415600957005b60203560003555600052601d60036017f0600055");

    let sender = address("cd1722f3947def4cf144679da39c4c32bdc35681");
    let address = contract_address(&sender, &U256::zero());
    let next_address = contract_address(&address, &U256::zero());
    let mut params = ActionParams::new();
    params.address = address;
    params.sender = sender;
    params.origin = sender;
    params.gas = number(100_000);
    params.code = code;
    params.value = number(100);
    let mut state = State::new_temp();
    state.add_balance(&sender, &number(100));
    let info = EnvInfo::new();
    let engine = TestEngine::new(1024);
    let mut substate = Substate::new();

    {
        let mut ex = Executive::new(&mut state, &info, &engine);
        ex.create(&Interpreter, &params, &mut substate).unwrap();
    }

    assert_eq!(substate.contracts_created.len(), 1);
    assert_eq!(substate.contracts_created[0], next_address);
}

#[test]
fn test_aba_calls() {
    // 60 00 - push 0
    // 60 00 - push 0
    // 60 00 - push 0
    // 60 00 - push 0
    // 60 18 - push 18
    // 73 945304eb96065b2a98b57a48a06ae28d285a71b5 - push this address
    // 61 03e8 - push 1000
    // f1 - message call
    // 58 - get PC
    // 55 - sstore
    let code_a = from_hex("6000600060006000601873945304eb96065b2a98b57a48a06ae28d285a71b56103e8f15855");

    // 60 00 - push 0
    // 60 00 - push 0
    // 60 00 - push 0
    // 60 00 - push 0
    // 60 17 - push 17
    // 73 0f572e5295c57f15886f9b263e2f6d2d6c7b5ec6 - push this address
    // 61 0x01f4 - push 500
    // f1 - message call
    // 60 01 - push 1
    // 01 - add
    // 58 - get PC
    // 55 - sstore
    let code_b = from_hex("60006000600060006017730f572e5295c57f15886f9b263e2f6d2d6c7b5ec66101f4f16001015855");

    let address_a = address("0f572e5295c57f15886f9b263e2f6d2d6c7b5ec6");
    let address_b = address("945304eb96065b2a98b57a48a06ae28d285a71b5");
    let sender = address("cd1722f3947def4cf144679da39c4c32bdc35681");

    let mut params = ActionParams::new();
    params.address = address_a;
    params.sender = sender;
    params.gas = number(100_000);
    params.code = code_a.clone();
    params.value = number(100_000);

    let mut state = State::new_temp();
    state.init_code(&address_a, code_a.clone());
    state.init_code(&address_b, code_b.clone());
    state.add_balance(&sender, &number(100_000));

    let info = EnvInfo::new();
    let engine = TestEngine::new(0);
    let mut substate = Substate::new();

    let gas_left = {
        let mut ex = Executive::new(&mut state, &info, &engine);
        let mut output = OutputBuffer::Fixed(vec![]);
        ex.call(&Interpreter, &params, &mut substate, &mut output).unwrap()
    };

    assert_eq!(gas_left, number(73_237));
    assert_eq!(state.storage_at(&address_a, &hash_of(0x23)), hash_of(1));
}

#[test]
fn test_recursive_bomb1() {
    // 60 01 - push 1
    // 60 00 - push 0
    // 54 - sload
    // 01 - add
    // 60 00 - push 0
    // 55 - sstore
    // 60 00 - push 0
    // 60 00 - push 0
    // 60 00 - push 0
    // 60 00 - push 0
    // 60 00 - push 0
    // 30 - load address
    // 60 e0 - push e0
    // 5a - get gas
    // 03 - sub
    // f1 - message call (self in this case)
    // 60 01 - push 1
    // 55 - sstore
    let sender = address("cd1722f3947def4cf144679da39c4c32bdc35681");
    let code = from_hex("600160005401600055600060006000600060003060e05a03f1600155");
    let address = contract_address(&sender, &U256::zero());
    let mut params = ActionParams::new();
    params.address = address;
    params.gas = number(100_000);
    params.code = code.clone();
    let mut state = State::new_temp();
    state.init_code(&address, code.clone());
    let info = EnvInfo::new();
    let engine = TestEngine::new(0);
    let mut substate = Substate::new();

    let gas_left = {
        let mut ex = Executive::new(&mut state, &info, &engine);
        let mut output = OutputBuffer::Fixed(vec![]);
        ex.call(&Interpreter, &params, &mut substate, &mut output).unwrap()
    };

    assert_eq!(gas_left, number(59_870));
    assert_eq!(state.storage_at(&address, &hash_of(0)), hash_of(1));
    assert_eq!(state.storage_at(&address, &hash_of(1)), hash_of(1));
}

#[test]
fn test_transact_simple() {
    let mut t = Transaction::new_create(
        number(17), from_hex("3331600055"), number(100_000), U256::zero(), U256::zero(),
    );
    t.signer = Some(signer());
    let sender = t.sender().unwrap();
    let contract = contract_address(&sender, &U256::zero());

    let mut state = State::new_temp();
    state.add_balance(&sender, &number(18));
    let mut info = EnvInfo::new();
    info.gas_limit = number(100_000);
    let engine = TestEngine::new(0);

    let executed = {
        let mut ex = Executive::new(&mut state, &info, &engine);
        ex.transact(&Interpreter, &t).unwrap()
    };

    assert_eq!(executed.gas, number(100_000));
    assert_eq!(executed.gas_used, number(41_301));
    assert_eq!(executed.refunded, number(58_699));
    assert_eq!(executed.cumulative_gas_used, number(41_301));
    assert_eq!(executed.logs.len(), 0);
    assert_eq!(executed.out_of_gas, false);
    assert_eq!(executed.contracts_created.len(), 0);
    assert_eq!(state.balance(&sender), number(1));
    assert_eq!(state.balance(&contract), number(17));
    assert_eq!(state.nonce(&sender), number(1));
    assert_eq!(state.storage_at(&contract, &H256::new()), hash_of(1));
}

#[test]
fn test_transact_invalid_sender() {
    let t = Transaction::new_create(
        number(17), from_hex("3331600055"), number(100_000), U256::zero(), U256::zero(),
    );

    let mut state = State::new_temp();
    let mut info = EnvInfo::new();
    info.gas_limit = number(100_000);
    let engine = TestEngine::new(0);

    let res = {
        let mut ex = Executive::new(&mut state, &info, &engine);
        ex.transact(&Interpreter, &t)
    };

    match res {
        Err(Error::Util(UtilError::Crypto(CryptoError::InvalidSignature))) => (),
        _ => assert!(false, "Expected invalid signature error."),
    }
}

#[test]
fn test_transact_invalid_nonce() {
    let mut t = Transaction::new_create(
        number(17), from_hex("3331600055"), number(100_000), U256::zero(), U256::one(),
    );
    t.signer = Some(signer());
    let sender = t.sender().unwrap();

    let mut state = State::new_temp();
    state.add_balance(&sender, &number(17));
    let mut info = EnvInfo::new();
    info.gas_limit = number(100_000);
    let engine = TestEngine::new(0);

    let res = {
        let mut ex = Executive::new(&mut state, &info, &engine);
        ex.transact(&Interpreter, &t)
    };

    match res {
        Err(Error::Execution(ExecutionError::InvalidNonce { expected, is }))
            if expected == U256::zero() && is == U256::one() => (),
        _ => assert!(false, "Expected invalid nonce error."),
    }
}

#[test]
fn test_transact_gas_limit_reached() {
    let mut t = Transaction::new_create(
        number(17), from_hex("3331600055"), number(80_001), U256::zero(), U256::zero(),
    );
    t.signer = Some(signer());
    let sender = t.sender().unwrap();

    let mut state = State::new_temp();
    state.add_balance(&sender, &number(17));
    let mut info = EnvInfo::new();
    info.gas_used = number(20_000);
    info.gas_limit = number(100_000);
    let engine = TestEngine::new(0);

    let res = {
        let mut ex = Executive::new(&mut state, &info, &engine);
        ex.transact(&Interpreter, &t)
    };

    match res {
        Err(Error::Execution(ExecutionError::BlockGasLimitReached { gas_limit, gas_used, gas }))
            if gas_limit == number(100_000) && gas_used == number(20_000) && gas == number(80_001) => (),
        _ => assert!(false, "Expected block gas limit error."),
    }
}

#[test]
fn test_not_enough_cash() {
    let mut t = Transaction::new_create(
        number(18), from_hex("3331600055"), number(100_000), U256::one(), U256::zero(),
    );
    t.signer = Some(signer());
    let sender = t.sender().unwrap();

    let mut state = State::new_temp();
    state.add_balance(&sender, &number(100_017));
    let mut info = EnvInfo::new();
    info.gas_limit = number(100_000);
    let engine = TestEngine::new(0);

    let res = {
        let mut ex = Executive::new(&mut state, &info, &engine);
        ex.transact(&Interpreter, &t)
    };

    match res {
        Err(Error::Execution(ExecutionError::NotEnoughCash { required, is }))
            if required == U512::from_u256(number(100_018))
                && is == U512::from_u256(number(100_017)) => (),
        _ => assert!(false, "Expected not enough cash error. {:?}", res),
    }
}

/// A machine that stores a value and then fails.
struct Broken;

impl<E: Engine> Evm<E> for Broken {
    fn exec(&self, _params: &ActionParams, ext: &mut Externalities<'_, E>) -> EvmResult {
        ext.sstore(hash_of(1), hash_of(2));
        Err(evm::Error::Internal)
    }
}

/// A chain on which a contract whose code cannot be paid for fails to be created.
struct StrictEngine;

impl Engine for StrictEngine {
    fn schedule(&self, _info: &EnvInfo) -> Schedule {
        let mut schedule = Schedule::new_frontier();
        schedule.exceptional_failed_code_deposit = true;
        schedule
    }

    fn is_builtin(&self, _address: &Address) -> bool {
        false
    }

    fn cost_of_builtin(&self, _address: &Address, _input: &Vec<u8>) -> U256 {
        U256::zero()
    }

    fn execute_builtin(&self, _address: &Address, _input: &Vec<u8>, _output: &mut OutputBuffer) {}
}

fn contract() -> Address {
    address("945304eb96065b2a98b57a48a06ae28d285a71b5")
}

fn author() -> Address {
    address("00000000000000000000000000000000000000aa")
}

fn block() -> EnvInfo {
    let mut info = EnvInfo::new();
    info.author = author();
    info.gas_limit = number(1_000_000);
    info
}

/// A signed call of the contract at a gas price of one.
fn call_of(to: Address, value: u64, gas: u64) -> Transaction {
    let mut t = Transaction::new_call(
        to, number(value), vec![], number(gas), U256::one(), U256::zero(),
    );
    t.signer = Some(signer());
    t
}

#[test]
fn refund_for_a_cleared_slot_is_capped_and_receipt_adds_up() {
    // 60 00 60 00 55 - clear slot 0
    let mut state = State::new_temp();
    state.add_balance(&signer(), &number(1_000_000));
    state.init_code(&contract(), from_hex("6000600055"));
    state.set_storage(&contract(), H256::new(), hash_of(5));
    let mut info = block();
    info.gas_used = number(7);
    let engine = TestEngine::new(1024);

    let executed = {
        let mut ex = Executive::new(&mut state, &info, &engine);
        ex.transact(&Interpreter, &call_of(contract(), 0, 100_000)).unwrap()
    };

    assert_eq!(executed.gas, number(100_000));
    assert_eq!(executed.refunded, number(86_997));
    assert_eq!(executed.gas_used, number(13_003));
    assert_eq!(executed.refunded.wrapping_add(executed.gas_used), executed.gas);
    assert_eq!(executed.cumulative_gas_used, number(13_010));
    assert_eq!(executed.out_of_gas, false);
    assert_eq!(state.balance(&signer()), number(1_000_000 - 13_003));
    assert_eq!(state.balance(&author()), number(13_003));
    assert_eq!(state.storage_at(&contract(), &H256::new()), H256::new());
}

#[test]
fn transaction_out_of_gas_keeps_the_state_but_for_the_fee() {
    // 60 01 60 00 55 - store 1 in slot 0
    let mut state = State::new_temp();
    state.add_balance(&signer(), &number(50_000));
    state.init_code(&contract(), from_hex("6001600055"));
    let info = block();
    let engine = TestEngine::new(1024);

    let executed = {
        let mut ex = Executive::new(&mut state, &info, &engine);
        ex.transact(&Interpreter, &call_of(contract(), 5, 30_000)).unwrap()
    };

    assert_eq!(executed.gas, number(30_000));
    assert_eq!(executed.gas_used, number(30_000));
    assert_eq!(executed.refunded, U256::zero());
    assert_eq!(executed.cumulative_gas_used, number(30_000));
    assert_eq!(executed.out_of_gas, true);
    assert_eq!(executed.logs.len(), 0);
    assert_eq!(executed.contracts_created.len(), 0);
    assert_eq!(state.balance(&signer()), number(20_000));
    assert_eq!(state.nonce(&signer()), number(1));
    assert_eq!(state.balance(&contract()), U256::zero());
    assert_eq!(state.storage_at(&contract(), &H256::new()), H256::new());
    assert_eq!(state.balance(&author()), U256::zero());
}

#[test]
fn nested_call_out_of_gas_is_undone_and_noted() {
    let inner = address("0f572e5295c57f15886f9b263e2f6d2d6c7b5ec6");
    let mut state = State::new_temp();
    state.add_balance(&signer(), &number(100_000));
    state.init_code(&inner, from_hex("6001600055"));
    // call the inner contract with 1000 gas, then store what the call gave plus 7 in slot 0
    state.init_code(
        &contract(),
        from_hex("60006000600060006000730f572e5295c57f15886f9b263e2f6d2d6c7b5ec66103e8f1600701600055"),
    );
    let info = block();
    let engine = TestEngine::new(1024);

    let executed = {
        let mut ex = Executive::new(&mut state, &info, &engine);
        ex.transact(&Interpreter, &call_of(contract(), 0, 100_000)).unwrap()
    };

    assert_eq!(executed.out_of_gas, true);
    assert_eq!(executed.gas_used, number(21_000 + 21 + 40 + 1_000 + 3 + 3 + 3 + 20_000));
    assert_eq!(state.storage_at(&inner, &H256::new()), H256::new());
    assert_eq!(state.storage_at(&contract(), &H256::new()), hash_of(7));
}

#[test]
fn nested_call_that_goes_well() {
    let inner = address("0f572e5295c57f15886f9b263e2f6d2d6c7b5ec6");
    let mut state = State::new_temp();
    state.add_balance(&signer(), &number(1_000_000));
    state.add_balance(&contract(), &number(50));
    // return 0x2a in 32 bytes
    state.init_code(&inner, from_hex("602a60005260206000f3"));
    // call the inner contract with value 24 and 1000 gas into 32 bytes of memory, and store
    // what the call gave in slot 0
    state.init_code(
        &contract(),
        from_hex("6020600060006000601873\
                  0f572e5295c57f15886f9b263e2f6d2d6c7b5ec66103e8f1600055"),
    );
    let info = block();
    let engine = TestEngine::new(1024);

    let executed = {
        let mut ex = Executive::new(&mut state, &info, &engine);
        ex.transact(&Interpreter, &call_of(contract(), 0, 100_000)).unwrap()
    };

    // the inner code uses 18 of the 1000 and the stipend of 2300
    let call = 40 + 1_000 + 9_000 - (1_000 + 2_300 - 18);
    assert_eq!(executed.gas_used, number(21_000 + 21 + 3 + call + 3 + 20_000));
    assert_eq!(executed.out_of_gas, false);
    assert_eq!(state.storage_at(&contract(), &H256::new()), hash_of(1));
    assert_eq!(state.balance(&contract()), number(26));
    assert_eq!(state.balance(&inner), number(24));
}

#[test]
fn builtin_contract_takes_its_price_or_all_gas() {
    let engine = TestEngine::new(1024);
    let info = EnvInfo::new();
    let mut params = ActionParams::new();
    params.address = identity();
    params.sender = signer();
    params.value = number(3);
    params.data = vec![1, 2, 3, 4];

    let mut state = State::new_temp();
    state.add_balance(&signer(), &number(10));
    let mut substate = Substate::new();
    let mut output = OutputBuffer::Flexible(vec![]);
    params.gas = number(100);
    let result = Executive::new(&mut state, &info, &engine)
        .call(&Interpreter, &params, &mut substate, &mut output);
    assert_eq!(result, Ok(number(73)));
    assert_eq!(output.into_bytes(), vec![1, 2, 3, 4]);
    assert_eq!(state.balance(&identity()), number(3));

    let mut output = OutputBuffer::Fixed(vec![9]);
    params.gas = number(26);
    let result = Executive::new(&mut state, &info, &engine)
        .call(&Interpreter, &params, &mut substate, &mut output);
    assert_eq!(result, Ok(U256::zero()));
    assert_eq!(output.into_bytes(), vec![9]);
    assert_eq!(state.balance(&identity()), number(6));
    assert_eq!(state.balance(&signer()), number(4));
    assert_eq!(substate.out_of_gas(), false);
}

#[test]
fn plain_payment_moves_value_and_fee() {
    let mut state = State::new_temp();
    state.add_balance(&signer(), &number(100_000));
    state.add_balance(&contract(), &number(1));
    let info = block();
    let engine = TestEngine::new(1024);

    let executed = {
        let mut ex = Executive::new(&mut state, &info, &engine);
        ex.transact(&Interpreter, &call_of(contract(), 500, 50_000)).unwrap()
    };

    assert_eq!(executed.gas_used, number(21_000));
    assert_eq!(executed.refunded, number(29_000));
    assert_eq!(state.balance(&contract()), number(501));
    assert_eq!(state.balance(&author()), number(21_000));
    assert_eq!(state.balance(&signer()), number(100_000 - 21_000 - 500));
}

#[test]
fn suicide_pays_out_and_removes_the_account() {
    // 73 .. ff - suicide in favour of the author
    let mut state = State::new_temp();
    state.add_balance(&signer(), &number(100_000));
    state.add_balance(&contract(), &number(40));
    state.init_code(&contract(), from_hex("7300000000000000000000000000000000000000aaff"));
    let info = block();
    let engine = TestEngine::new(1024);

    let executed = {
        let mut ex = Executive::new(&mut state, &info, &engine);
        ex.transact(&Interpreter, &call_of(contract(), 2, 50_000)).unwrap()
    };

    // half of the 21003 used comes back
    assert_eq!(executed.gas_used, number(10_502));
    assert_eq!(executed.refunded, number(39_498));
    assert_eq!(state.account_exists(&contract()), false);
    assert_eq!(state.balance(&contract()), U256::zero());
    assert_eq!(state.balance(&author()), number(42 + 10_502));
    assert_eq!(state.balance(&signer()), number(100_000 - 2 - 10_502));
}

#[test]
fn contracts_are_listed_in_the_order_in_which_they_end() {
    // create another contract with value 23, then return no code
    let code = from_hex(
        "7c601080600c6000396000f3006000355415600957005b60203560003555600052601d60036017f060006000f3",
    );
    let mut t = Transaction::new_create(number(100), code, number(200_000), U256::zero(), U256::zero());
    t.signer = Some(signer());
    let outer = contract_address(&signer(), &U256::zero());
    let inner = contract_address(&outer, &U256::zero());

    let mut state = State::new_temp();
    state.add_balance(&signer(), &number(100));
    let info = block();
    let engine = TestEngine::new(1024);
    let executed = {
        let mut ex = Executive::new(&mut state, &info, &engine);
        ex.transact(&Interpreter, &t).unwrap()
    };

    assert_eq!(executed.contracts_created, vec![inner, outer]);
    assert_eq!(state.balance(&outer), number(77));
    assert_eq!(state.balance(&inner), number(23));
    assert_eq!(state.nonce(&outer), number(1));
    assert_eq!(state.code(&inner).unwrap().len(), 16);
    assert_eq!(state.code(&outer).unwrap().len(), 0);
}

#[test]
fn logs_are_kept_in_the_receipt() {
    // 60 00 60 00 a0 - log nothing
    let mut state = State::new_temp();
    state.add_balance(&signer(), &number(100_000));
    state.init_code(&contract(), from_hex("60006000a0"));
    let info = block();
    let engine = TestEngine::new(1024);

    let executed = {
        let mut ex = Executive::new(&mut state, &info, &engine);
        ex.transact(&Interpreter, &call_of(contract(), 0, 50_000)).unwrap()
    };

    assert_eq!(executed.gas_used, number(21_000 + 6 + 375));
    assert_eq!(executed.logs.len(), 1);
    assert_eq!(executed.logs[0].address, contract());
    assert_eq!(executed.logs[0].topics.len(), 0);
    assert_eq!(executed.logs[0].data.len(), 0);
}

#[test]
fn failed_machine_gives_an_internal_error() {
    let mut state = State::new_temp();
    state.add_balance(&signer(), &number(100_000));
    state.init_code(&contract(), vec![0]);
    let info = block();
    let engine = TestEngine::new(1024);

    let res = {
        let mut ex = Executive::new(&mut state, &info, &engine);
        ex.transact(&Broken, &call_of(contract(), 0, 50_000))
    };

    match res {
        Err(error) => assert_eq!(error, Error::Execution(ExecutionError::Internal)),
        Ok(_) => panic!("a receipt where an error is due"),
    }
    assert_eq!(state.nonce(&signer()), number(1));
    assert_eq!(state.balance(&signer()), number(50_000));
    assert_eq!(state.storage_at(&contract(), &hash_of(1)), hash_of(2));
}

#[test]
fn refused_transaction_leaves_the_state_alone() {
    let mut state = State::new_temp();
    state.add_balance(&signer(), &number(10));
    let info = block();
    let engine = TestEngine::new(1024);
    let res = {
        let mut ex = Executive::new(&mut state, &info, &engine);
        ex.transact(&Interpreter, &call_of(contract(), 1, 10))
    };
    match res {
        Err(Error::Execution(ExecutionError::NotEnoughCash { required, is })) => {
            assert_eq!(required, U512::from_u256(number(11)));
            assert_eq!(is, U512::from_u256(number(10)));
        }
        _ => panic!("an unaffordable transaction went through"),
    }
    assert_eq!(state.balance(&signer()), number(10));
    assert_eq!(state.nonce(&signer()), U256::zero());
    assert_eq!(state.account_exists(&contract()), false);
}

#[test]
fn cost_beyond_a_word_is_reported_in_full() {
    let all = U256 { hi: u128::MAX, lo: u128::MAX };
    let mut t = Transaction::new_create(U256::one(), vec![], all, all, U256::zero());
    t.signer = Some(signer());
    let mut state = State::new_temp();
    let mut info = block();
    info.gas_limit = all;
    let engine = TestEngine::new(1024);
    let res = {
        let mut ex = Executive::new(&mut state, &info, &engine);
        ex.transact(&Interpreter, &t)
    };
    match res {
        // (2^256 - 1)^2 + 1 == (2^256 - 2) * 2^256 + 2
        Err(Error::Execution(ExecutionError::NotEnoughCash { required, is })) => {
            assert_eq!(required.hi, all.wrapping_sub(U256::one()));
            assert_eq!(required.lo, number(2));
            assert_eq!(is, U512::from_u256(U256::zero()));
        }
        _ => panic!("an unaffordable transaction went through"),
    }
}

#[test]
fn base_gas_counts_zero_and_other_bytes() {
    let schedule = Schedule::new_frontier();
    let t = Transaction::new_create(
        U256::zero(), from_hex("3331600055"), U256::zero(), U256::zero(), U256::zero(),
    );
    assert_eq!(t.gas_required(&schedule), number(21_000 + 4 * 68 + 4));
    let mut homestead = schedule;
    homestead.tx_create_gas = 53_000;
    assert_eq!(t.gas_required(&homestead), number(53_000 + 4 * 68 + 4));
    assert_eq!(call_of(contract(), 0, 0).gas_required(&homestead), number(21_000));
}

#[test]
fn reverting_depends_on_the_result() {
    let info = EnvInfo::new();
    let engine = TestEngine::new(1024);
    let cases = vec![
        (Ok(number(1)), false),
        (Err(evm::Error::Internal), false),
        (Err(evm::Error::OutOfGas), true),
    ];
    for (result, reverted) in cases {
        let mut state = State::new_temp();
        let backup = state.clone();
        state.add_balance(&contract(), &number(8));
        let mut substate = Substate::new();
        Executive::new(&mut state, &info, &engine).revert_if_needed(&result, &mut substate, backup);
        assert_eq!(state.account_exists(&contract()), !reverted);
        assert_eq!(substate.out_of_gas(), reverted);
    }
}

#[test]
fn finalizing_each_result() {
    let info = block();
    let engine = TestEngine::new(1024);
    let t = call_of(contract(), 0, 1_000);

    let mut state = State::new_temp();
    let mut substate = Substate::new();
    substate.refunds_count = number(1);
    substate.suicides.insert(&contract());
    substate.suicides.insert(&contract());
    state.add_balance(&contract(), &number(4));
    let executed = Executive::new(&mut state, &info, &engine)
        .finalize(&t, substate, Ok(number(900))).unwrap();
    assert_eq!(executed.refunded, number(950));
    assert_eq!(executed.gas_used, number(50));
    assert_eq!(state.balance(&signer()), number(950));
    assert_eq!(state.balance(&author()), number(50));
    assert_eq!(state.account_exists(&contract()), false);

    let mut state = State::new_temp();
    let executed = Executive::new(&mut state, &info, &engine)
        .finalize(&t, Substate::new(), Err(evm::Error::OutOfGas)).unwrap();
    assert_eq!(executed.refunded, U256::zero());
    assert_eq!(executed.gas_used, number(1_000));
    assert_eq!(executed.out_of_gas, true);
    assert_eq!(state.account_exists(&signer()), false);

    let result = Executive::new(&mut state, &info, &engine)
        .finalize(&t, Substate::new(), Err(evm::Error::Internal));
    match result {
        Err(error) => assert_eq!(error, ExecutionError::Internal),
        Ok(_) => panic!("a receipt where an error is due"),
    }
}

#[test]
fn small_refund_is_paid_in_full() {
    let info = block();
    let engine = TestEngine::new(1024);
    let t = call_of(contract(), 0, 100_000);
    let mut state = State::new_temp();
    let mut substate = Substate::new();
    substate.refunds_count = number(1);
    let executed = Executive::new(&mut state, &info, &engine)
        .finalize(&t, substate, Ok(number(10_000))).unwrap();
    assert_eq!(executed.refunded, number(25_000));
    assert_eq!(executed.gas_used, number(75_000));
}

#[test]
fn cumulative_gas_adds_up_over_a_block() {
    let engine = TestEngine::new(1024);
    let mut state = State::new_temp();
    state.add_balance(&signer(), &number(1_000_000));
    let mut info = block();
    let mut sum = 0;
    for nonce in 0..3 {
        let mut t = call_of(contract(), 1, 30_000);
        t.nonce = number(nonce);
        let executed = Executive::new(&mut state, &info, &engine).transact(&Interpreter, &t).unwrap();
        sum += 21_000;
        assert_eq!(executed.gas_used, number(21_000));
        assert_eq!(executed.cumulative_gas_used, number(sum));
        info.gas_used = executed.cumulative_gas_used;
    }
    assert_eq!(state.nonce(&signer()), number(3));
    assert_eq!(state.balance(&contract()), number(3));
}

#[test]
fn recent_block_hashes() {
    let mut info = EnvInfo::new();
    info.number = 300;
    info.last_hashes = (0..256).map(|i| hash_of(1000 + i)).collect();
    let engine = TestEngine::new(0);
    let params = ActionParams::new();
    let ext = Externalities::new(
        State::new_temp(), &info, &engine, 0, &params, Substate::new(), OutputPolicy::InitContract,
    );
    assert_eq!(ext.blockhash(&number(299)), hash_of(1000));
    assert_eq!(ext.blockhash(&number(298)), hash_of(1001));
    assert_eq!(ext.blockhash(&number(44)), hash_of(1255));
    assert_eq!(ext.blockhash(&number(43)), H256::new());
    assert_eq!(ext.blockhash(&number(300)), H256::new());
    assert_eq!(ext.blockhash(&U256 { hi: 1, lo: 299 }), H256::new());
    assert_eq!(ext.env_info().number, 300);
}

#[test]
fn young_chain_has_few_block_hashes() {
    let mut info = EnvInfo::new();
    info.number = 2;
    info.last_hashes = vec![hash_of(11), hash_of(10)];
    let engine = TestEngine::new(0);
    let params = ActionParams::new();
    let ext = Externalities::new(
        State::new_temp(), &info, &engine, 0, &params, Substate::new(), OutputPolicy::InitContract,
    );
    assert_eq!(ext.blockhash(&number(1)), hash_of(11));
    assert_eq!(ext.blockhash(&number(0)), hash_of(10));
    assert_eq!(ext.blockhash(&number(2)), H256::new());
}

#[test]
fn storage_reads_back_and_clearing_earns_once() {
    let info = EnvInfo::new();
    let engine = TestEngine::new(0);
    let mut params = ActionParams::new();
    params.address = contract();
    // 60 05 60 00 55 - store 5 in slot 0
    // 60 00 60 00 55 - clear it
    // 60 00 60 00 55 - clear it again
    params.code = from_hex("600560005560006000556000600055");
    params.gas = number(100_000);
    let mut state = State::new_temp();
    state.set_storage(&contract(), hash_of(9), hash_of(8));
    let mut substate = Substate::new();
    let mut output = OutputBuffer::Flexible(vec![]);
    let result = Executive::new(&mut state, &info, &engine)
        .call(&Interpreter, &params, &mut substate, &mut output);
    assert_eq!(result, Ok(number(100_000 - 18 - 20_000 - 5_000 - 5_000)));
    assert_eq!(substate.refunds_count, number(1));
    assert_eq!(state.storage_at(&contract(), &H256::new()), H256::new());
    assert_eq!(state.storage_at(&contract(), &hash_of(9)), hash_of(8));

    let mut ext = Externalities::new(
        state, &info, &engine, 0, &params, substate, OutputPolicy::InitContract,
    );
    ext.sstore(hash_of(3), hash_of(4));
    assert_eq!(ext.sload(&hash_of(3)), hash_of(4));
    assert_eq!(ext.sload(&hash_of(9)), hash_of(8));
}

#[test]
fn code_of_a_new_contract_has_to_be_paid_for() {
    let info = EnvInfo::new();
    let mut params = ActionParams::new();
    params.address = contract();

    let frontier = TestEngine::new(0);
    let mut ext = Externalities::new(
        State::new_temp(), &info, &frontier, 0, &params, Substate::new(), OutputPolicy::InitContract,
    );
    assert_eq!(ext.ret(&number(399), &[1, 2]), Ok(number(399)));
    assert_eq!(ext.extcode(&contract()), vec![]);
    assert_eq!(ext.ret(&number(450), &[1, 2]), Ok(number(50)));
    assert_eq!(ext.extcode(&contract()), vec![1, 2]);

    let strict = StrictEngine;
    let mut ext = Externalities::new(
        State::new_temp(), &info, &strict, 0, &params, Substate::new(), OutputPolicy::InitContract,
    );
    assert_eq!(ext.schedule().exceptional_failed_code_deposit, true);
    assert_eq!(ext.ret(&number(399), &[1, 2]), Err(evm::Error::OutOfGas));
    assert_eq!(ext.extcode(&contract()), vec![]);
    assert_eq!(ext.ret(&number(400), &[1, 2]), Ok(U256::zero()));
    assert_eq!(ext.extcode(&contract()), vec![1, 2]);
}

#[test]
fn calls_that_are_refused() {
    let info = EnvInfo::new();
    let engine = TestEngine::new(1024);
    let mut params = ActionParams::new();
    params.address = contract();
    let other = address("0f572e5295c57f15886f9b263e2f6d2d6c7b5ec6");
    let mut state = State::new_temp();
    state.add_balance(&contract(), &number(5));
    let mut ext = Externalities::new(
        state, &info, &engine, 0, &params, Substate::new(), OutputPolicy::InitContract,
    );
    let mut output = vec![7];

    // the account does not exist, and value is passed on
    assert_eq!(
        ext.price_call(&number(1_000), &other, &number(6), &other),
        (number(1_000 + 25_000 + 9_000), number(3_300)),
    );
    // foreign code on the own account, no value
    assert_eq!(
        ext.price_call(&number(1_000), &contract(), &U256::zero(), &other),
        (number(1_000), number(1_000)),
    );
    assert_eq!(
        ext.call(
            &Interpreter, &number(34_999), &number(1_000), &other, &number(6), &[], &other, &mut output,
        ),
        Err(evm::Error::OutOfGas),
    );
    // too little balance: the gas comes back with the stipend
    assert_eq!(
        ext.call(
            &Interpreter, &number(40_000), &number(1_000), &other, &number(6), &[], &other, &mut output,
        ),
        Ok((number(40_000 - 35_000 + 3_300), true)),
    );
    assert_eq!(ext.balance(&contract()), number(5));
    assert_eq!(output, vec![7]);
    // enough balance: the account has no code and keeps nothing of the gas
    assert_eq!(
        ext.call(
            &Interpreter, &number(40_000), &number(1_000), &other, &number(5), &[], &other, &mut output,
        ),
        Ok((number(40_000 - 35_000 + 3_300), true)),
    );
    assert_eq!(ext.balance(&contract()), U256::zero());
    assert_eq!(ext.balance(&other), number(5));

    assert_eq!(ext.create(&Interpreter, &number(50), &number(1), &[]), (number(50), None));
}

#[test]
fn creation_out_of_gas_gives_nothing() {
    let info = EnvInfo::new();
    let engine = TestEngine::new(1024);
    let mut params = ActionParams::new();
    params.address = contract();
    let mut state = State::new_temp();
    state.add_balance(&contract(), &number(5));
    let mut ext = Externalities::new(
        state, &info, &engine, 0, &params, Substate::new(), OutputPolicy::InitContract,
    );
    let created = contract_address(&contract(), &U256::zero());
    // 60 01 60 00 55 - store 1 in slot 0
    let outcome = ext.create(&Interpreter, &number(50), &number(1), &from_hex("6001600055"));
    assert_eq!(outcome, (U256::zero(), None));
    assert_eq!(ext.balance(&contract()), number(5));
    assert_eq!(ext.balance(&created), U256::zero());
    // the nonce stays taken
    let next = contract_address(&contract(), &number(1));
    let outcome = ext.create(&Interpreter, &number(50), &number(1), &[]);
    assert_eq!(outcome, (number(50), Some(next)));
    assert_eq!(ext.balance(&next), number(1));
}

#[test]
fn children_are_one_deeper() {
    let info = EnvInfo::new();
    let engine = TestEngine::new(1024);
    let mut state = State::new_temp();
    assert_eq!(Executive::new(&mut state, &info, &engine).depth, 0);
    assert_eq!(Executive::from_parent(&mut state, &info, &engine, 4).depth, 5);
}

#[test]
fn encodings_from_which_addresses_are_derived() {
    let account = address("0f572e5295c57f15886f9b263e2f6d2d6c7b5ec6");
    let head = from_hex("940f572e5295c57f15886f9b263e2f6d2d6c7b5ec6");
    let expected = |first: u8, nonce: &[u8]| {
        let mut bytes = vec![first];
        bytes.extend(head.iter());
        bytes.extend(nonce.iter());
        bytes
    };
    assert_eq!(encode_address_nonce(&account, &U256::zero()), expected(0xd6, &[0x80]));
    assert_eq!(encode_address_nonce(&account, &number(0x7f)), expected(0xd6, &[0x7f]));
    assert_eq!(encode_address_nonce(&account, &number(0x80)), expected(0xd7, &[0x81, 0x80]));
    assert_eq!(encode_address_nonce(&account, &number(0x400)), expected(0xd8, &[0x82, 4, 0]));
    let all = U256 { hi: u128::MAX, lo: u128::MAX };
    let mut nonce = vec![0xa0];
    nonce.extend([0xffu8; 32].iter());
    assert_eq!(encode_address_nonce(&account, &all), expected(0xf6, &nonce));
}

#[test]
fn transaction_may_fill_the_block() {
    let mut state = State::new_temp();
    state.add_balance(&signer(), &number(1_000_000));
    let mut info = block();
    info.gas_used = number(20_000);
    info.gas_limit = number(100_000);
    let engine = TestEngine::new(1024);
    let executed = Executive::new(&mut state, &info, &engine)
        .transact(&Interpreter, &call_of(contract(), 1, 80_000)).unwrap();
    assert_eq!(executed.cumulative_gas_used, number(41_000));
    let mut t = call_of(contract(), 1, 80_001);
    t.nonce = number(1);
    let refused = Executive::new(&mut state, &info, &engine).transact(&Interpreter, &t);
    match refused {
        Err(error) => assert_eq!(
            error,
            Error::Execution(ExecutionError::BlockGasLimitReached {
                gas_limit: number(100_000),
                gas_used: number(20_000),
                gas: number(80_001),
            }),
        ),
        Ok(_) => panic!("a transaction that does not fit went through"),
    }
}

#[test]
fn suicide_in_favour_of_oneself_destroys_the_balance() {
    let mut state = State::new_temp();
    state.add_balance(&signer(), &number(100_000));
    state.add_balance(&contract(), &number(40));
    state.init_code(&contract(), from_hex("73945304eb96065b2a98b57a48a06ae28d285a71b5ff"));
    let info = block();
    let engine = TestEngine::new(1024);
    let executed = Executive::new(&mut state, &info, &engine)
        .transact(&Interpreter, &call_of(contract(), 2, 50_000)).unwrap();
    assert_eq!(executed.gas_used, number(10_502));
    assert_eq!(state.account_exists(&contract()), false);
    assert_eq!(state.balance(&signer()), number(100_000 - 2 - 10_502));
    assert_eq!(state.balance(&author()), number(10_502));
}

#[test]
fn what_was_noted_before_a_call_stays_noted() {
    let info = EnvInfo::new();
    let engine = TestEngine::new(1024);
    let mut params = ActionParams::new();
    params.address = contract();
    params.gas = number(1_000);
    // 60 00 60 00 a0 - log nothing
    params.code = from_hex("60006000a0");
    let mut state = State::new_temp();
    let mut substate = Substate::new();
    substate.out_of_gas = true;
    substate.suicides.insert(&author());
    substate.contracts_created.push(author());
    let mut output = OutputBuffer::Fixed(vec![]);
    for calls in 1..3 {
        let result = Executive::new(&mut state, &info, &engine)
            .call(&Interpreter, &params, &mut substate, &mut output);
        assert_eq!(result, Ok(number(1_000 - 6 - 375)));
        assert_eq!(substate.logs.len(), calls);
    }
    assert_eq!(substate.out_of_gas(), true);
    assert_eq!(substate.suicides.len(), 1);
    assert_eq!(substate.contracts_created, vec![author()]);
}

#[test]
fn gas_that_overflows_does_not_fit_into_a_block() {
    let all = U256 { hi: u128::MAX, lo: u128::MAX };
    let mut state = State::new_temp();
    state.add_balance(&signer(), &number(100));
    let mut info = block();
    info.gas_used = all;
    info.gas_limit = number(100);
    let engine = TestEngine::new(1024);
    let res = Executive::new(&mut state, &info, &engine)
        .transact(&Interpreter, &call_of(contract(), 0, 1));
    match res {
        Err(error) => assert_eq!(
            error,
            Error::Execution(ExecutionError::BlockGasLimitReached {
                gas_limit: number(100),
                gas_used: all,
                gas: number(1),
            }),
        ),
        Ok(_) => panic!("a transaction that does not fit went through"),
    }
    assert_eq!(state.balance(&signer()), number(100));
}

#[test]
fn failed_runs_are_finalized_without_a_sender() {
    let info = block();
    let engine = TestEngine::new(1024);
    let mut t = call_of(contract(), 0, 1_000);
    t.signer = None;
    let mut state = State::new_temp();
    let executed = Executive::new(&mut state, &info, &engine)
        .finalize(&t, Substate::new(), Err(evm::Error::OutOfGas)).unwrap();
    assert_eq!(executed.gas_used, number(1_000));
    assert_eq!(executed.cumulative_gas_used, number(1_000));
}

#[test]
fn externalities_come_apart_into_what_they_hold() {
    let info = EnvInfo::new();
    let engine = TestEngine::new(1024);
    let mut params = ActionParams::new();
    params.address = contract();
    let mut state = State::new_temp();
    state.add_balance(&contract(), &number(9));
    let mut ext = Externalities::new(
        state,
        &info,
        &engine,
        0,
        &params,
        Substate::new(),
        OutputPolicy::Return(OutputBuffer::Fixed(vec![0, 0, 0])),
    );
    ext.sstore(hash_of(1), hash_of(2));
    ext.log(vec![hash_of(3)], vec![4]);
    ext.suicide(&author());
    assert_eq!(ext.ret(&number(5), &[7, 8]), Ok(number(5)));
    let (state, substate, output) = ext.into_parts();
    assert_eq!(state.storage_at(&contract(), &hash_of(1)), hash_of(2));
    assert_eq!(state.balance(&author()), number(9));
    assert_eq!(substate.logs.len(), 1);
    assert_eq!(substate.logs[0].topics, vec![hash_of(3)]);
    assert!(substate.suicides.contains(&contract()));
    assert_eq!(output.into_bytes(), vec![7, 8, 0]);
}

#[test]
fn buffer_of_a_call_keeps_its_size() {
    let info = EnvInfo::new();
    let engine = TestEngine::new(1024);
    let mut params = ActionParams::new();
    params.address = contract();
    let other = address("0f572e5295c57f15886f9b263e2f6d2d6c7b5ec6");
    let mut state = State::new_temp();
    // return 0x2a in 32 bytes
    state.init_code(&other, from_hex("602a60005260206000f3"));
    let mut ext = Externalities::new(
        state, &info, &engine, 0, &params, Substate::new(), OutputPolicy::InitContract,
    );
    let mut short = vec![9; 3];
    let outcome = ext.call(
        &Interpreter, &number(5_000), &number(1_000), &other, &U256::zero(), &[], &other, &mut short,
    );
    assert_eq!(outcome, Ok((number(5_000 - 18), true)));
    assert_eq!(short, vec![0; 3]);
    let mut long = vec![9; 33];
    let outcome = ext.call(
        &Interpreter, &number(5_000), &number(1_000), &other, &U256::zero(), &[], &other, &mut long,
    );
    assert_eq!(outcome, Ok((number(5_000 - 18), true)));
    let mut expected = vec![0; 31];
    expected.push(0x2a);
    expected.push(9);
    assert_eq!(long, expected);
}

#[test]
fn nested_runs_keep_the_supply_and_add_to_the_substate() {
    let inner = address("0f572e5295c57f15886f9b263e2f6d2d6c7b5ec6");
    let mut state = State::new_temp();
    state.add_balance(&signer(), &number(1_000_000));
    state.add_balance(&contract(), &number(50));
    state.set_storage(&inner, H256::new(), hash_of(5));
    // clear slot 0, then log nothing
    state.init_code(&inner, from_hex("600060005560006000a0"));
    // log nothing, then call the inner contract with value 24 and 9000 gas
    state.init_code(
        &contract(),
        from_hex("60006000a06000600060006000601873\
                  0f572e5295c57f15886f9b263e2f6d2d6c7b5ec6612328f1"),
    );
    let info = block();
    let engine = TestEngine::new(1024);
    let executed = Executive::new(&mut state, &info, &engine)
        .transact(&Interpreter, &call_of(contract(), 1, 100_000)).unwrap();
    assert_eq!(executed.logs.len(), 2);
    assert_eq!(executed.logs[0].address, contract());
    assert_eq!(executed.logs[1].address, inner);
    // the cleared slot earns 15000
    let inner_gas = 6 + 5_000 + 6 + 375;
    let used = 21_000 + 6 + 375 + 21 + 40 + 9_000 + 9_000 - (9_000 + 2_300 - inner_gas);
    assert_eq!(executed.gas_used, number(used - 15_000.min(used / 2)));
    let total = [signer(), contract(), inner, author()].iter()
        .fold(U256::zero(), |sum, a| sum.wrapping_add(state.balance(a)));
    assert_eq!(total, number(1_000_050));
}

#[test]
fn payment_touches_nobody_else() {
    let bystander = address("0f572e5295c57f15886f9b263e2f6d2d6c7b5ec6");
    let mut state = State::new_temp();
    state.add_balance(&signer(), &number(100_000));
    state.init_code(&bystander, vec![1, 2]);
    state.add_balance(&bystander, &number(6));
    state.inc_nonce(&bystander);
    state.set_storage(&bystander, hash_of(1), hash_of(2));
    // the sender is the author too, and gets the fees back
    let mut info = block();
    info.author = signer();
    let engine = TestEngine::new(1024);
    let executed = Executive::new(&mut state, &info, &engine)
        .transact(&Interpreter, &call_of(contract(), 500, 50_000)).unwrap();
    assert_eq!(executed.gas_used, number(21_000));
    assert_eq!(state.nonce(&signer()), number(1));
    assert_eq!(state.balance(&signer()), number(99_500));
    assert_eq!(state.balance(&contract()), number(500));
    assert_eq!(state.nonce(&contract()), U256::zero());
    assert_eq!(state.code(&bystander), Some(vec![1, 2]));
    assert_eq!(state.balance(&bystander), number(6));
    assert_eq!(state.nonce(&bystander), number(1));
    assert_eq!(state.storage_at(&bystander, &hash_of(1)), hash_of(2));
    assert_eq!(state.account_exists(&author()), false);
}

#[test]
fn nested_creations_take_nonces() {
    // create a contract without code twice, and return no code
    let code = from_hex("600060006000f0600060006000f060006000f3");
    let mut t = Transaction::new_create(U256::zero(), code, number(200_000), U256::zero(), U256::zero());
    t.signer = Some(signer());
    let outer = contract_address(&signer(), &U256::zero());
    let mut state = State::new_temp();
    let info = block();
    let engine = TestEngine::new(1024);
    Executive::new(&mut state, &info, &engine).transact(&Interpreter, &t).unwrap();
    assert_eq!(state.nonce(&signer()), number(1));
    assert_eq!(state.nonce(&outer), number(2));
    assert!(state.account_exists(&contract_address(&outer, &U256::zero())));
    assert!(state.account_exists(&contract_address(&outer, &U256::one())));
}
