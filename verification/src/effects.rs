//! What each operation on words, byte strings, accounts and externalities does, in terms of
//! numbers, sequences and maps.

use crate::bytes::{be_fixed, be_minimal, be_value, lemma_be_fixed_len, lemma_be_minimal_value};
use crate::env::Schedule;
use crate::executive::{created_address, Executed, World};
use crate::externalities::ExtView;
use crate::hash::{keccak_digest, zero_hash, Address, H256};
use crate::output::{OutputBuffer, OutputView};
use crate::rlp::{lemma_word_len, rlp_address_nonce};
use crate::state::{AccountView, StateView};
use crate::substate::{LogEntry, Substate, SubstateView};
use crate::transaction::{data_gas, Action, ActionParams, Transaction};
use crate::uint::{lesser, two_256, word_add, word_mul, word_sub, U256, U512};
use vstd::arithmetic::div_mod::lemma_div_denominator;
use vstd::arithmetic::power::{lemma_pow_positive, pow};
use vstd::prelude::*;

verus! {

/// Sums, differences and products of words are those of numbers, modulo `2^256`; the smaller of
/// two numbers is one of them and exceeds neither.
pub proof fn law_word_arithmetic(a: nat, b: nat)
    ensures
        word_add(a, b) == (a + b)
            % 0x1_0000_0000_0000_0000_0000_0000_0000_0000_0000_0000_0000_0000_0000_0000_0000_0000nat,
        word_sub(a, b) as int == (a - b)
            % 0x1_0000_0000_0000_0000_0000_0000_0000_0000_0000_0000_0000_0000_0000_0000_0000_0000int,
        word_mul(a, b) == (a * b)
            % 0x1_0000_0000_0000_0000_0000_0000_0000_0000_0000_0000_0000_0000_0000_0000_0000_0000nat,
        lesser(a, b) == a || lesser(a, b) == b,
        lesser(a, b) <= a,
        lesser(a, b) <= b,
{
    reveal(word_add);
    reveal(word_sub);
    reveal(word_mul);
}

/// A word stands for its two halves, and a 512-bit number for its two words.
pub proof fn law_numbers(word: U256, wide: U512)
    ensures
        word@ == word.hi * 0x1_0000_0000_0000_0000_0000_0000_0000_0000 + word.lo,
        wide@ == wide.hi@
            * 0x1_0000_0000_0000_0000_0000_0000_0000_0000_0000_0000_0000_0000_0000_0000_0000_0000
            + wide.lo@,
{
}

/// Byte `i` of a number written in `len` bytes is the digit of `256^(len - 1 - i)`.
pub proof fn law_be_fixed(x: nat, len: nat, i: int)
    requires
        0 <= i < len,
    ensures
        be_fixed(x, len).len() == len,
        be_fixed(x, len)[i] == (x / pow(256, (len - 1 - i) as nat) as nat) % 256,
    decreases len,
{
    lemma_be_fixed_len(x, len);
    lemma_be_fixed_len(x / 256, (len - 1) as nat);
    reveal(pow);
    lemma_pow_positive(256, (len - 1 - i) as nat);
    if i == len - 1 {
        assert(pow(256, 0) == 1);
        assert(x / 1nat == x);
    } else {
        law_be_fixed(x / 256, (len - 1) as nat, i);
        let rest = pow(256, (len - 2 - i) as nat);
        lemma_pow_positive(256, (len - 2 - i) as nat);
        assert(pow(256, (len - 1 - i) as nat) == 256 * rest);
        lemma_div_denominator(x as int, 256, rest);
        assert(be_fixed(x, len)[i] == be_fixed(x / 256, (len - 1) as nat)[i]);
        assert((x / 256) / (rest as nat) == x / ((256 * rest) as nat));
    }
}

/// The shortest form of a number reads back as the number, and does not start with a zero byte.
/// Reading goes from the most significant byte on.
pub proof fn law_be_minimal(x: nat, bytes: Seq<u8>, byte: u8)
    ensures
        be_value(be_minimal(x)) == x,
        x > 0 ==> be_minimal(x).len() > 0 && be_minimal(x)[0] != 0,
        x == 0 ==> be_minimal(x).len() == 0,
        be_value(Seq::empty()) == 0,
        be_value(bytes.push(byte)) == be_value(bytes) * 256 + byte,
    decreases x,
{
    lemma_be_minimal_value(x);
    assert(bytes.push(byte).drop_last() =~= bytes);
    if x > 0 {
        let upper = be_minimal(x / 256);
        assert(be_minimal(x) =~= upper.push((x % 256) as u8));
        law_be_minimal(x / 256, bytes, byte);
        assert(x / 256 > 0 ==> be_minimal(x)[0] == upper[0]);
    }
}

/// The pair from which a contract's address is derived is a list of 20 bytes and a number: the
/// length of what follows, the address after its length, and the nonce as a byte of its own if
/// it is below `0x80`, else after its length.
pub proof fn law_address_nonce_layout(address: Address, nonce: U256)
    ensures
        ({
            let encoding = rlp_address_nonce(address@, nonce@);
            let tail = encoding.skip(22);
            &&& encoding.len() >= 23
            &&& encoding[0] == 0xbf + encoding.len()
            &&& encoding[1] == 0x94
            &&& forall|i: int| 0 <= i < 20 ==> #[trigger] encoding[2 + i] == address.bytes@[i]
            &&& nonce@ == 0 ==> tail == seq![0x80u8]
            &&& 0 < nonce@ < 0x80 ==> tail == seq![nonce@ as u8]
            &&& nonce@ >= 0x80 ==> {
                &&& tail[0] == 0x7f + tail.len()
                &&& tail[1] != 0
                &&& be_value(tail.skip(1)) == nonce@
            }
        }),
{
    let number = be_minimal(nonce@);
    let encoding = rlp_address_nonce(address@, nonce@);
    let tail = encoding.skip(22);
    lemma_word_len(nonce@);
    law_be_minimal(nonce@, Seq::empty(), 0);
    if 0 < nonce@ < 0x80 {
        law_be_minimal(nonce@ / 256, Seq::empty(), 0);
        assert(number =~= seq![nonce@ as u8]);
        assert(tail =~= number);
    } else {
        assert(!(number.len() == 1 && number[0] < 0x80)) by {
            if number.len() == 1 {
                assert(number.drop_last() =~= Seq::empty());
                assert(be_value(number) == be_value(number.drop_last()) * 256 + number.last());
            }
        }
        assert(tail =~= seq![(0x80 + number.len()) as u8] + number);
        assert(tail.skip(1) =~= number);
    }
}

/// The address of a created contract is the last 20 bytes of the digest of the pair of its
/// creator's address and nonce.
pub proof fn law_created_address(address: Address, nonce: U256)
    requires
        keccak_digest(rlp_address_nonce(address@, nonce@)).len() == 32,
    ensures
        created_address(address@, nonce@).len() == 20,
        forall|i: int|
            0 <= i < 20 ==> #[trigger] created_address(address@, nonce@)[i] == keccak_digest(
                rlp_address_nonce(address@, nonce@),
            )[12 + i],
{
}

/// An empty storage slot holds 32 zero bytes.
pub proof fn law_zero_hash()
    ensures
        zero_hash().len() == 32,
        forall|i: int| 0 <= i < 32 ==> #[trigger] zero_hash()[i] == 0,
{
}

/// Addresses and hashes stand for their bytes.
pub proof fn law_bytes_of_hashes(address: Address, hash: H256)
    ensures
        address@ == address.bytes@,
        hash@ == hash.bytes@,
{
}

/// A log entry, a substate, a receipt and the parameters of a run stand for what is in each of
/// their fields.
pub proof fn law_views(
    entry: LogEntry,
    substate: Substate,
    executed: Executed,
    params: ActionParams,
    i: int,
    j: int,
)
    ensures
        entry@.address == entry.address@,
        entry@.topics.len() == entry.topics@.len(),
        0 <= i < entry.topics@.len() ==> entry@.topics[i] == entry.topics@[i]@,
        entry@.data == entry.data@,
        substate@.suicides == substate.suicides@,
        substate@.logs.len() == substate.logs@.len(),
        0 <= j < substate.logs@.len() ==> substate@.logs[j] == substate.logs@[j]@,
        substate@.refunds_count == substate.refunds_count@,
        substate@.out_of_gas == substate.out_of_gas,
        substate@.contracts_created.len() == substate.contracts_created@.len(),
        0 <= i < substate.contracts_created@.len() ==> substate@.contracts_created[i]
            == substate.contracts_created@[i]@,
        executed@.gas == executed.gas@,
        executed@.gas_used == executed.gas_used@,
        executed@.refunded == executed.refunded@,
        executed@.cumulative_gas_used == executed.cumulative_gas_used@,
        executed@.logs.len() == executed.logs@.len(),
        0 <= j < executed.logs@.len() ==> executed@.logs[j] == executed.logs@[j]@,
        executed@.out_of_gas == executed.out_of_gas,
        executed@.contracts_created.len() == executed.contracts_created@.len(),
        0 <= i < executed.contracts_created@.len() ==> executed@.contracts_created[i]
            == executed.contracts_created@[i]@,
        params@.address == params.address@,
        params@.sender == params.sender@,
        params@.origin == params.origin@,
        params@.gas == params.gas@,
        params@.gas_price == params.gas_price@,
        params@.value == params.value@,
        params@.code == params.code@,
        params@.data == params.data@,
{
}

/// A buffer stands for its kind and its bytes; data returned into a flexible one replaces them,
/// and a fixed one takes as much of the data as it has room for.
pub proof fn law_buffers(bytes: Vec<u8>, data: Seq<u8>, other: OutputView)
    ensures
        OutputBuffer::Flexible(bytes)@ == OutputView::Flexible(bytes@),
        OutputBuffer::Fixed(bytes)@ == OutputView::Fixed(bytes@),
        OutputView::Flexible(data).bytes() == data,
        OutputView::Fixed(data).bytes() == data,
        OutputView::Flexible(bytes@).written(data) == OutputView::Flexible(data),
        OutputView::Fixed(bytes@).written(data) is Fixed,
        OutputView::Fixed(bytes@).written(data).bytes().len() == bytes@.len(),
        forall|i: int|
            0 <= i < bytes@.len() && i < data.len() ==> #[trigger] OutputView::Fixed(
                bytes@,
            ).written(data).bytes()[i] == data[i],
        forall|i: int|
            data.len() <= i < bytes@.len() ==> #[trigger] OutputView::Fixed(bytes@).written(
                data,
            ).bytes()[i] == bytes@[i],
        other.shaped_as(OutputView::Flexible(data)) ==> other is Flexible,
        other.shaped_as(OutputView::Fixed(data)) ==> other is Fixed && other.bytes().len()
            == data.len(),
{
}

/// The substate that an execution starts with holds nothing.
pub proof fn law_empty_substate()
    ensures
        SubstateView::empty().suicides == Set::<Seq<u8>>::empty(),
        SubstateView::empty().logs.len() == 0,
        SubstateView::empty().refunds_count == 0,
        !SubstateView::empty().out_of_gas,
        SubstateView::empty().contracts_created.len() == 0,
{
}

/// A transaction needs the price of its kind, and the price of each byte of its data: one for
/// zero bytes, another for the rest.
pub proof fn law_base_gas(t: Transaction, schedule: Schedule)
    ensures
        ({
            let zeros = t.data@.filter(|byte: u8| byte == 0).len();
            let others = t.data@.filter(|byte: u8| byte != 0).len();
            let bytes = zeros * schedule.tx_data_zero_gas + others * schedule.tx_data_non_zero_gas;
            &&& zeros + others == t.data@.len()
            &&& t.action == Action::Create ==> t.base_gas(schedule) == schedule.tx_create_gas
                + bytes
            &&& t.action is Call ==> t.base_gas(schedule) == schedule.tx_gas + bytes
        }),
{
    lemma_data_gas(t.data@, schedule);
}

/// The price of the bytes of a transaction's data.
proof fn lemma_data_gas(data: Seq<u8>, schedule: Schedule)
    ensures
        ({
            let zeros = data.filter(|byte: u8| byte == 0).len();
            let others = data.filter(|byte: u8| byte != 0).len();
            &&& zeros + others == data.len()
            &&& data_gas(data, schedule) == zeros * schedule.tx_data_zero_gas + others
                * schedule.tx_data_non_zero_gas
        }),
    decreases data.len(),
{
    reveal(Seq::filter);
    let zero = |byte: u8| byte == 0;
    let other = |byte: u8| byte != 0;
    if data.len() == 0 {
        assert(data.filter(zero).len() == 0);
        assert(data.filter(other).len() == 0);
        assert(0 * schedule.tx_data_zero_gas == 0) by (nonlinear_arith);
        assert(0 * schedule.tx_data_non_zero_gas == 0) by (nonlinear_arith);
    } else {
        let fewer = data.drop_last();
        lemma_data_gas(fewer, schedule);
        let zeros = fewer.filter(zero).len();
        let others = fewer.filter(other).len();
        let z = schedule.tx_data_zero_gas as nat;
        let o = schedule.tx_data_non_zero_gas as nat;
        assert((zeros + 1) * z == zeros * z + z) by (nonlinear_arith);
        assert((others + 1) * o == others * o + o) by (nonlinear_arith);
    }
}

/// What is read of an account is what the map of accounts holds, and zero or empty where it holds
/// none.
pub proof fn law_account_reads(state: StateView, a: Seq<u8>, key: Seq<u8>)
    ensures
        state.account_exists(a) == state.accounts.contains_key(a),
        state.accounts.contains_key(a) ==> {
            &&& state.balance(a) == state.accounts[a].balance
            &&& state.nonce(a) == state.accounts[a].nonce
            &&& state.code(a) == state.accounts[a].code
            &&& state.account(a) == state.accounts[a]
            &&& state.accounts[a].storage.contains_key(key) ==> state.storage_at(a, key)
                == state.accounts[a].storage[key]
            &&& !state.accounts[a].storage.contains_key(key) ==> state.storage_at(a, key)
                == zero_hash()
        },
        !state.accounts.contains_key(a) ==> {
            &&& state.balance(a) == 0
            &&& state.nonce(a) == 0
            &&& state.code(a).len() == 0
            &&& state.account(a).storage == Map::<Seq<u8>, Seq<u8>>::empty()
            &&& state.storage_at(a, key) == zero_hash()
        },
{
}

/// An operation on an account leaves every other account as it is, brings the account into being,
/// and changes the one thing that it is for.
pub proof fn law_account_writes(
    state: StateView,
    a: Seq<u8>,
    amount: nat,
    key: Seq<u8>,
    value: Seq<u8>,
    code: Seq<u8>,
)
    ensures
        ({
            let nonce = state.nonce(a);
            let balance = state.balance(a);
            let held = state.code(a);
            let storage = state.account(a).storage;
            &&& state.inc_nonce(a).accounts == state.accounts.insert(
                a,
                AccountView { nonce: word_add(nonce, 1), balance, code: held, storage },
            )
            &&& state.add_balance(a, amount).accounts == state.accounts.insert(
                a,
                AccountView { nonce, balance: word_add(balance, amount), code: held, storage },
            )
            &&& state.sub_balance(a, amount).accounts == state.accounts.insert(
                a,
                AccountView { nonce, balance: word_sub(balance, amount), code: held, storage },
            )
            &&& state.set_storage(a, key, value).accounts == state.accounts.insert(
                a,
                AccountView { nonce, balance, code: held, storage: storage.insert(key, value) },
            )
            &&& state.init_code(a, code).accounts == state.accounts.insert(
                a,
                AccountView { nonce, balance, code, storage },
            )
            &&& state.new_contract(a).accounts == state.accounts.insert(
                a,
                AccountView { nonce, balance, code: Seq::empty(), storage },
            )
            &&& state.kill_account(a).accounts == state.accounts.remove(a)
        }),
{
}

/// A transfer takes from one balance what it adds to another, modulo `2^256`; to oneself, it
/// changes nothing. It brings both accounts into being, and touches nothing else of them and
/// nothing of any other.
pub proof fn law_transfer(
    state: StateView,
    from: Seq<u8>,
    to: Seq<u8>,
    amount: nat,
    a: Seq<u8>,
)
    requires
        state.well_formed(),
    ensures
        ({
            let after = state.transfer_balance(from, to, amount);
            &&& from != to ==> after.balance(from) == word_sub(state.balance(from), amount)
            &&& from != to ==> after.balance(to) == word_add(state.balance(to), amount)
            &&& from == to ==> after.balance(from) == state.balance(from)
            &&& a != from && a != to ==> after.balance(a) == state.balance(a)
            &&& after.nonce(a) == state.nonce(a)
            &&& after.code(a) == state.code(a)
            &&& after.account(a).storage == state.account(a).storage
            &&& after.account_exists(a) == (state.account_exists(a) || a == from || a == to)
        }),
{
    assert(state.balance(from) < two_256());
    reveal(word_add);
    reveal(word_sub);
}

/// Removing accounts removes those, and leaves the others as they are.
pub proof fn law_removal(state: StateView, dead: Set<Seq<u8>>, a: Seq<u8>)
    ensures
        dead.contains(a) ==> !state.kill_accounts(dead).account_exists(a),
        !dead.contains(a) ==> {
            &&& state.kill_accounts(dead).account_exists(a) == state.account_exists(a)
            &&& state.kill_accounts(dead).account(a) == state.account(a)
        },
        !state.kill_account(a).account_exists(a),
{
}

/// The world of externalities is their state and substate; replacing it keeps the rest.
pub proof fn law_worlds(ext: ExtView, world: World)
    ensures
        ext.world().state == ext.state,
        ext.world().substate == ext.substate,
        ext.with_world(world) == (ExtView {
            state: world.state,
            info: ext.info,
            depth: ext.depth,
            params: ext.params,
            substate: world.substate,
            schedule: ext.schedule,
            output: ext.output,
            init_contract: ext.init_contract,
        }),
{
}

/// Storing puts the value into the slot of the running account and nowhere else. It earns a refund
/// only where it makes a slot zero that was not: storing anything but zero earns none, nor does
/// storing over zero.
pub proof fn law_sstore(ext: ExtView, key: Seq<u8>, value: Seq<u8>)
    ensures
        ({
            let after = ext.sstore(key, value);
            let address = ext.params.address;
            let held = ext.state.storage_at(address, key);
            &&& ext.sload(key) == held
            &&& value != zero_hash() ==> after.substate.refunds_count
                == ext.substate.refunds_count
            &&& held == zero_hash() ==> after.substate.refunds_count == ext.substate.refunds_count
            &&& value == zero_hash() && held != zero_hash() ==> after.substate.refunds_count
                == word_add(ext.substate.refunds_count, 1)
            &&& after.state.accounts == ext.state.accounts.insert(
                address,
                AccountView {
                    nonce: ext.state.nonce(address),
                    balance: ext.state.balance(address),
                    code: ext.state.code(address),
                    storage: ext.state.account(address).storage.insert(key, value),
                },
            )
            &&& after.substate.suicides == ext.substate.suicides
            &&& after.substate.logs == ext.substate.logs
            &&& after.substate.out_of_gas == ext.substate.out_of_gas
            &&& after.substate.contracts_created == ext.substate.contracts_created
            &&& after.info == ext.info
            &&& after.depth == ext.depth
            &&& after.params == ext.params
            &&& after.schedule == ext.schedule
            &&& after.output == ext.output
            &&& after.init_contract == ext.init_contract
        }),
{
}

/// Logging adds one entry behind the others: the address of the running account, the topics and
/// the data that are given. It changes nothing else.
pub proof fn law_log(ext: ExtView, topics: Seq<Seq<u8>>, data: Seq<u8>)
    ensures
        ({
            let after = ext.log(topics, data);
            let logs = ext.substate.logs;
            &&& after.substate.logs.len() == logs.len() + 1
            &&& after.substate.logs.last().address == ext.params.address
            &&& after.substate.logs.last().topics == topics
            &&& after.substate.logs.last().data == data
            &&& forall|i: int| 0 <= i < logs.len() ==> #[trigger] after.substate.logs[i] == logs[i]
            &&& after.substate.suicides == ext.substate.suicides
            &&& after.substate.refunds_count == ext.substate.refunds_count
            &&& after.substate.out_of_gas == ext.substate.out_of_gas
            &&& after.substate.contracts_created == ext.substate.contracts_created
            &&& after.state == ext.state
            &&& after.info == ext.info
            &&& after.depth == ext.depth
            &&& after.params == ext.params
            &&& after.schedule == ext.schedule
            &&& after.output == ext.output
            &&& after.init_contract == ext.init_contract
        }),
{
}

/// Paying out transfers the whole balance of the running account, and marks that account, and no
/// other, for removal. It changes nothing else.
pub proof fn law_paying_out(ext: ExtView, refund_address: Seq<u8>, a: Seq<u8>)
    ensures
        ({
            let after = ext.suicide(refund_address);
            let address = ext.params.address;
            &&& after.state == ext.state.transfer_balance(
                address,
                refund_address,
                ext.state.balance(address),
            )
            &&& after.substate.suicides.contains(a) == (ext.substate.suicides.contains(a) || a
                == address)
            &&& after.substate.logs == ext.substate.logs
            &&& after.substate.refunds_count == ext.substate.refunds_count
            &&& after.substate.out_of_gas == ext.substate.out_of_gas
            &&& after.substate.contracts_created == ext.substate.contracts_created
            &&& after.info == ext.info
            &&& after.depth == ext.depth
            &&& after.params == ext.params
            &&& after.schedule == ext.schedule
            &&& after.output == ext.output
            &&& after.init_contract == ext.init_contract
        }),
{
}

/// Returning data writes it to the buffer of a call. For a new contract it becomes the code of
/// the running account, which is then listed as created, if the gas pays for each byte; else
/// nothing happens.
pub proof fn law_returning(ext: ExtView, gas: nat, data: Seq<u8>)
    ensures
        ext.code_price(data) == data.len() * ext.schedule.create_data_gas,
        ({
            let after = ext.returned(gas, data);
            let address = ext.params.address;
            let price = data.len() * ext.schedule.create_data_gas;
            &&& after.info == ext.info
            &&& after.depth == ext.depth
            &&& after.params == ext.params
            &&& after.schedule == ext.schedule
            &&& after.init_contract == ext.init_contract
            &&& after.substate.suicides == ext.substate.suicides
            &&& after.substate.logs == ext.substate.logs
            &&& after.substate.refunds_count == ext.substate.refunds_count
            &&& after.substate.out_of_gas == ext.substate.out_of_gas
            &&& !ext.init_contract ==> {
                &&& after.output == ext.output.written(data)
                &&& after.state == ext.state
                &&& after.substate == ext.substate
            }
            &&& ext.init_contract ==> after.output == ext.output
            &&& ext.init_contract && price > gas ==> after.state == ext.state && after.substate
                == ext.substate
            &&& ext.init_contract && price <= gas ==> {
                &&& after.state.accounts == ext.state.accounts.insert(
                    address,
                    AccountView {
                        nonce: ext.state.nonce(address),
                        balance: ext.state.balance(address),
                        code: data,
                        storage: ext.state.account(address).storage,
                    },
                )
                &&& after.substate.contracts_created == ext.substate.contracts_created.push(address)
            }
        }),
{
}

/// The hash of a block can be asked for if the block is one of the 256 before the current one.
pub proof fn law_recent_blocks(ext: ExtView, number: nat)
    ensures
        ext.is_recent(number) <==> number < ext.info.number && ext.info.number <= number + 256,
{
}

/// Code may call and create as long as its account can pay the value and the depth is below the
/// limit.
pub proof fn law_descent(ext: ExtView, value: nat)
    ensures
        ext.may_descend(value) <==> value <= ext.state.balance(ext.params.address) && ext.depth
            < ext.schedule.max_depth,
{
}

/// A call costs the gas that it passes on, the price of a new account if it is to run code of its
/// own and does not exist, and the price of a transfer if it passes value on; with value the callee
/// gets the stipend on top. All of this is modulo `2^256`.
pub proof fn law_call_prices(
    ext: ExtView,
    call_gas: nat,
    receive_address: Seq<u8>,
    value: nat,
    code_address: Seq<u8>,
)
    requires
        call_gas < two_256(),
    ensures
        ({
            let opening: nat = if receive_address == code_address
                && !ext.state.accounts.contains_key(receive_address) {
                ext.schedule.call_new_account_gas as nat
            } else {
                0
            };
            let moving: nat = if value > 0 {
                ext.schedule.call_value_transfer_gas as nat
            } else {
                0
            };
            let stipend: nat = if value > 0 {
                ext.schedule.call_stipend as nat
            } else {
                0
            };
            &&& ext.call_cost(call_gas, receive_address, value, code_address) == (call_gas + opening
                + moving) % two_256()
            &&& ext.callee_gas(call_gas, value) == (call_gas + stipend) % two_256()
        }),
{
    reveal(word_add);
}

/// A call from within running code is made by the running account, on behalf of the same origin
/// and at the same gas price, with the value and the data that the code passes, on the receiving
/// account, with the code of the code account.
pub proof fn law_call_params(
    ext: ExtView,
    call_gas: nat,
    receive_address: Seq<u8>,
    value: nat,
    data: Seq<u8>,
    code_address: Seq<u8>,
)
    ensures
        ({
            let params = ext.call_params(call_gas, receive_address, value, data, code_address);
            &&& params.address == receive_address
            &&& params.sender == ext.params.address
            &&& params.origin == ext.params.origin
            &&& params.gas == ext.callee_gas(call_gas, value)
            &&& params.gas_price == ext.params.gas_price
            &&& params.value == value
            &&& params.code == ext.state.code(code_address)
            &&& params.data == data
        }),
{
}

/// A creation from within running code is made by the running account, on behalf of the same
/// origin and at the same gas price, with the gas, the value and the code that it passes and no
/// input, at the address derived from the running account's nonce.
pub proof fn law_create_params(ext: ExtView, gas: nat, value: nat, code: Seq<u8>)
    ensures
        ({
            let params = ext.create_params(gas, value, code);
            let address = ext.params.address;
            &&& params.address == created_address(address, ext.state.nonce(address))
            &&& params.sender == address
            &&& params.origin == ext.params.origin
            &&& params.gas == gas
            &&& params.gas_price == ext.params.gas_price
            &&& params.value == value
            &&& params.code == code
            &&& params.data.len() == 0
        }),
{
}

} // verus!
