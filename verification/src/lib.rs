//! Execution of transactions on a world state of accounts.
//!
//! An [`executive::Executive`] checks a transaction, charges its sender, runs the call or the
//! creation that it asks for, and finalizes it into a receipt. The code of contracts is run by
//! a virtual machine of the caller's, an [`evm::Evm`], which reaches the world through
//! [`externalities::Externalities`]. Which gas prices hold, and which contracts are built in,
//! is up to an [`engine::Engine`].
//!
//! The contracts speak of views: numbers for words, byte sequences for addresses and hashes,
//! and a map from addresses to accounts for the state. What holds of executions as a whole
//! stands in [`laws`], [`supply`] and [`machine`]; what each operation does, and what calls and
//! transactions hand to the machine, in [`effects`] and [`outcomes`].

pub mod bytes;
pub mod effects;
pub mod engine;
pub mod env;
pub mod error;
pub mod evm;
pub mod executive;
pub mod externalities;
pub mod hash;
pub mod laws;
pub mod machine;
pub mod outcomes;
pub mod output;
pub mod rlp;
pub mod state;
pub mod substate;
pub mod supply;
pub mod table;
pub mod transaction;
pub mod uint;

pub use crate::executive::{contract_address, Executed, ExecutionResult, Executive};
pub use crate::externalities::Externalities;
pub use crate::output::OutputPolicy;
pub use crate::substate::Substate;
