//! Why a transaction is refused.

use crate::uint::{U256, U512};
use vstd::prelude::*;

verus! {

/// What is wrong with a signature.
#[derive(Clone, Copy, Debug, PartialEq, Eq, Structural)]
pub enum CryptoError {
    /// The signature belongs to no account.
    InvalidSignature,
}

/// What is wrong outside of the execution itself.
#[derive(Clone, Copy, Debug, PartialEq, Eq, Structural)]
pub enum UtilError {
    Crypto(CryptoError),
}

/// Why the execution of a transaction is refused or abandoned.
#[allow(inconsistent_fields)]
#[derive(Clone, Copy, Debug, PartialEq, Eq, Structural)]
pub enum ExecutionError {
    /// The transaction's nonce is not the one that its sender is at.
    InvalidNonce { expected: U256, is: U256 },
    /// The transaction's gas does not fit into the block any more.
    BlockGasLimitReached { gas_limit: U256, gas_used: U256, gas: U256 },
    /// The sender cannot pay for the transaction.
    NotEnoughCash { required: U512, is: U512 },
    /// The virtual machine failed.
    Internal,
}

/// Why a transaction has no receipt.
#[derive(Clone, Copy, Debug, PartialEq, Eq, Structural)]
pub enum Error {
    Util(UtilError),
    Execution(ExecutionError),
}

} // verus!
