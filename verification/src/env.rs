//! What surrounds an execution: the block that it belongs to and the gas schedule.

use crate::hash::{Address, H256};
use crate::uint::U256;
use vstd::prelude::*;

verus! {

/// The block in which a transaction is executed.
#[derive(Debug)]
pub struct EnvInfo {
    /// The number of the block.
    pub number: u64,
    /// The account that fees are paid to.
    pub author: Address,
    /// When the block was made.
    pub timestamp: u64,
    /// How hard it was to make.
    pub difficulty: U256,
    /// The gas that all transactions of the block may use together.
    pub gas_limit: U256,
    /// The hashes of the preceding blocks, the latest first.
    pub last_hashes: Vec<H256>,
    /// The gas that the preceding transactions of the block have used.
    pub gas_used: U256,
}

impl EnvInfo {
    /// A block of which everything is zero.
    pub fn new() -> (info: EnvInfo)
        ensures
            info.number == 0,
            info.author@ == Seq::new(20, |i: int| 0u8),
            info.timestamp == 0,
            info.difficulty@ == 0,
            info.gas_limit@ == 0,
            info.last_hashes@ == Seq::<H256>::empty(),
            info.gas_used@ == 0,
    {
        EnvInfo {
            number: 0,
            author: Address::zero(),
            timestamp: 0,
            difficulty: U256::zero(),
            gas_limit: U256::zero(),
            last_hashes: Vec::new(),
            gas_used: U256::zero(),
        }
    }
}

/// The gas prices and limits in force.
#[derive(Clone, Copy, Debug, PartialEq, Eq, Structural)]
pub struct Schedule {
    /// Whether a contract whose code cannot be paid for fails to be created.
    pub exceptional_failed_code_deposit: bool,
    /// How deep calls and creations may be nested.
    pub max_depth: usize,
    /// The gas given back for clearing a storage slot.
    pub sstore_refund_gas: u64,
    /// The gas given back for an account that is removed.
    pub suicide_refund_gas: u64,
    /// The price of a byte of a new contract's code.
    pub create_data_gas: u64,
    /// The gas that a call with value gets on top.
    pub call_stipend: u64,
    /// The price of passing value on in a call.
    pub call_value_transfer_gas: u64,
    /// The price of calling an account that does not exist.
    pub call_new_account_gas: u64,
    /// The price of a transaction that calls.
    pub tx_gas: u64,
    /// The price of a transaction that creates a contract.
    pub tx_create_gas: u64,
    /// The price of a zero byte of a transaction's data.
    pub tx_data_zero_gas: u64,
    /// The price of any other byte of a transaction's data.
    pub tx_data_non_zero_gas: u64,
}

impl Schedule {
    /// The schedule of the Frontier release.
    pub fn new_frontier() -> (schedule: Schedule)
        ensures
            schedule == (Schedule {
                exceptional_failed_code_deposit: false,
                max_depth: 1024,
                sstore_refund_gas: 15000,
                suicide_refund_gas: 24000,
                create_data_gas: 200,
                call_stipend: 2300,
                call_value_transfer_gas: 9000,
                call_new_account_gas: 25000,
                tx_gas: 21000,
                tx_create_gas: 21000,
                tx_data_zero_gas: 4,
                tx_data_non_zero_gas: 68,
            }),
    {
        Schedule {
            exceptional_failed_code_deposit: false,
            max_depth: 1024,
            sstore_refund_gas: 15000,
            suicide_refund_gas: 24000,
            create_data_gas: 200,
            call_stipend: 2300,
            call_value_transfer_gas: 9000,
            call_new_account_gas: 25000,
            tx_gas: 21000,
            tx_create_gas: 21000,
            tx_data_zero_gas: 4,
            tx_data_non_zero_gas: 68,
        }
    }
}

} // verus!
