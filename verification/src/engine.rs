//! The rules of the chain that executions follow.

use crate::env::{EnvInfo, Schedule};
use crate::hash::Address;
use crate::output::{OutputBuffer, OutputView};
use crate::uint::U256;
use vstd::prelude::*;

verus! {

/// The rules of a chain: which gas schedule is in force, and which addresses hold
/// built-in contracts. Each method's result depends on its arguments alone, and a
/// specification function beside it names that result.
pub trait Engine {
    /// The gas schedule in force in a block.
    open spec fn schedule_in(&self, info: EnvInfo) -> Schedule {
        arbitrary()
    }

    /// Whether the address holds a built-in contract.
    open spec fn builtin_at(&self, address: Seq<u8>) -> bool {
        arbitrary()
    }

    /// The gas that a built-in contract takes for an input.
    open spec fn builtin_cost(&self, address: Seq<u8>, input: Seq<u8>) -> nat {
        arbitrary()
    }

    /// What a built-in contract makes of an output buffer.
    open spec fn builtin_output(
        &self,
        address: Seq<u8>,
        input: Seq<u8>,
        output: OutputView,
    ) -> OutputView {
        arbitrary()
    }

    /// The gas schedule in force in a block.
    fn schedule(&self, info: &EnvInfo) -> (schedule: Schedule)
        ensures
            schedule == self.schedule_in(*info),
    ;

    /// Whether the address holds a built-in contract.
    fn is_builtin(&self, address: &Address) -> (builtin: bool)
        ensures
            builtin == self.builtin_at(address@),
    ;

    /// The gas that a built-in contract takes for an input.
    fn cost_of_builtin(&self, address: &Address, input: &Vec<u8>) -> (cost: U256)
        requires
            self.builtin_at(address@),
        ensures
            cost@ == self.builtin_cost(address@, input@),
    ;

    /// Runs a built-in contract. It cannot change the size of a fixed buffer.
    fn execute_builtin(&self, address: &Address, input: &Vec<u8>, output: &mut OutputBuffer)
        requires
            self.builtin_at(address@),
        ensures
            final(output)@ == self.builtin_output(address@, input@, old(output)@),
            final(output)@.shaped_as(old(output)@),
    ;
}

} // verus!
