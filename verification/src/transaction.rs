//! Transactions, and the parameters of the calls and creations that they lead to.

use crate::env::Schedule;
use crate::error::CryptoError;
use crate::hash::Address;
use crate::uint::U256;
use vstd::prelude::*;

verus! {

/// What a transaction does.
#[derive(Clone, Copy, Debug)]
pub enum Action {
    /// Create a contract.
    Create,
    /// Call the account at an address.
    Call(Address),
}

/// A transaction.
#[derive(Debug)]
pub struct Transaction {
    /// How many transactions its sender has sent before.
    pub nonce: U256,
    /// The price that the sender pays for a unit of gas.
    pub gas_price: U256,
    /// The gas that the sender pays for up front.
    pub gas: U256,
    /// What the transaction does.
    pub action: Action,
    /// The value that it transfers.
    pub value: U256,
    /// The code of the new contract, or the input of the call.
    pub data: Vec<u8>,
    /// The account whose valid signature the transaction carries, if any.
    pub signer: Option<Address>,
}

/// The price of the bytes of a transaction's data.
pub open spec fn data_gas(data: Seq<u8>, schedule: Schedule) -> nat
    decreases data.len(),
{
    if data.len() == 0 {
        0
    } else {
        data_gas(data.drop_last(), schedule) + (if data.last() == 0 {
            schedule.tx_data_zero_gas as nat
        } else {
            schedule.tx_data_non_zero_gas as nat
        })
    }
}

impl Transaction {
    /// The gas that the transaction needs before anything is executed.
    pub open spec fn base_gas(self, schedule: Schedule) -> nat {
        data_gas(self.data@, schedule) + (if self.action is Create {
            schedule.tx_create_gas as nat
        } else {
            schedule.tx_gas as nat
        })
    }

    /// A transaction that creates a contract, not signed yet.
    pub fn new_create(
        value: U256,
        data: Vec<u8>,
        gas: U256,
        gas_price: U256,
        nonce: U256,
    ) -> (t: Transaction)
        ensures
            t == (Transaction {
                nonce,
                gas_price,
                gas,
                action: Action::Create,
                value,
                data,
                signer: None,
            }),
    {
        Transaction { nonce, gas_price, gas, action: Action::Create, value, data, signer: None }
    }

    /// A transaction that calls an account, not signed yet.
    pub fn new_call(
        to: Address,
        value: U256,
        data: Vec<u8>,
        gas: U256,
        gas_price: U256,
        nonce: U256,
    ) -> (t: Transaction)
        ensures
            t == (Transaction {
                nonce,
                gas_price,
                gas,
                action: Action::Call(to),
                value,
                data,
                signer: None,
            }),
    {
        Transaction { nonce, gas_price, gas, action: Action::Call(to), value, data, signer: None }
    }

    /// The account that sent the transaction.
    pub fn sender(&self) -> (sender: Result<Address, CryptoError>)
        ensures
            sender == match self.signer {
                Some(address) => Ok::<Address, CryptoError>(address),
                None => Err(CryptoError::InvalidSignature),
            },
    {
        match self.signer {
            Some(address) => Ok(address),
            None => Err(CryptoError::InvalidSignature),
        }
    }

    /// The gas that the transaction needs before anything is executed.
    pub fn gas_required(&self, schedule: &Schedule) -> (gas: U256)
        ensures
            gas@ == self.base_gas(*schedule),
    {
        let mut sum: u128 = 0;
        let mut i: usize = 0;
        while i < self.data.len()
            invariant
                i <= self.data@.len(),
                sum == data_gas(self.data@.take(i as int), *schedule),
                sum <= i * 0xffff_ffff_ffff_ffff,
            decreases self.data@.len() - i,
        {
            assert(self.data@.take(i + 1).drop_last() =~= self.data@.take(i as int));
            sum = sum + (if self.data[i] == 0 {
                schedule.tx_data_zero_gas as u128
            } else {
                schedule.tx_data_non_zero_gas as u128
            });
            i = i + 1;
        }
        assert(self.data@.take(i as int) =~= self.data@);
        let base: u64 = match self.action {
            Action::Create => schedule.tx_create_gas,
            Action::Call(_) => schedule.tx_gas,
        };
        U256::from_u128(sum + base as u128)
    }
}

/// What the code of a call or creation is executed with.
#[derive(Debug)]
pub struct ActionParams {
    /// The account whose storage and balance the code works on.
    pub address: Address,
    /// The account that calls.
    pub sender: Address,
    /// The account that sent the transaction.
    pub origin: Address,
    /// The gas that the code may use.
    pub gas: U256,
    /// The price of a unit of gas.
    pub gas_price: U256,
    /// The value that is transferred.
    pub value: U256,
    /// The code.
    pub code: Vec<u8>,
    /// The input.
    pub data: Vec<u8>,
}

/// What the parameters of a call or creation hold.
#[verifier::ext_equal]
pub ghost struct ParamsView {
    pub address: Seq<u8>,
    pub sender: Seq<u8>,
    pub origin: Seq<u8>,
    pub gas: nat,
    pub gas_price: nat,
    pub value: nat,
    pub code: Seq<u8>,
    pub data: Seq<u8>,
}

impl View for ActionParams {
    type V = ParamsView;

    open spec fn view(&self) -> ParamsView {
        ParamsView {
            address: self.address@,
            sender: self.sender@,
            origin: self.origin@,
            gas: self.gas@,
            gas_price: self.gas_price@,
            value: self.value@,
            code: self.code@,
            data: self.data@,
        }
    }
}

impl ActionParams {
    /// Parameters of which everything is zero or empty.
    pub fn new() -> (params: ActionParams)
        ensures
            params@ == (ParamsView {
                address: Seq::new(20, |i: int| 0u8),
                sender: Seq::new(20, |i: int| 0u8),
                origin: Seq::new(20, |i: int| 0u8),
                gas: 0,
                gas_price: 0,
                value: 0,
                code: Seq::empty(),
                data: Seq::empty(),
            }),
    {
        ActionParams {
            address: Address::zero(),
            sender: Address::zero(),
            origin: Address::zero(),
            gas: U256::zero(),
            gas_price: U256::zero(),
            value: U256::zero(),
            code: Vec::new(),
            data: Vec::new(),
        }
    }
}

} // verus!
