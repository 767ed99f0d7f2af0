//! The virtual machine, as an execution sees it.

use crate::engine::Engine;
use crate::externalities::{ExtView, Externalities};
use crate::transaction::{ActionParams, ParamsView};
use crate::uint::U256;
use vstd::prelude::*;

verus! {

/// How the virtual machine fails.
#[derive(Clone, Copy, Debug, PartialEq, Eq, Structural)]
pub enum Error {
    /// The code needs more gas than it was given.
    OutOfGas,
    /// The machine itself failed.
    Internal,
}

/// What is left of the gas, or why the machine failed.
pub type EvmResult = Result<U256, Error>;

/// A virtual machine for a chain. Nothing is promised of what it does, but that a fixed output
/// buffer keeps its size. `ran` is the relation between what goes into a run and what comes out
/// of it; left as it is, it holds of every run. A machine that runs nested calls hands itself to
/// the externalities, and Verus does not take such an impl, whose definition is cyclic: what is
/// proved through `ran` is proved of any relation.
pub trait Evm<E: Engine> {
    /// Whether a run with the given parameters can take the externalities from
    /// `before` to `after` and end with `result`.
    open spec fn ran(
        &self,
        engine: E,
        params: ParamsView,
        before: ExtView,
        after: ExtView,
        result: EvmResult,
    ) -> bool {
        true
    }

    /// Runs the code in the parameters. It cannot change the size of a fixed buffer.
    fn exec(&self, params: &ActionParams, ext: &mut Externalities<'_, E>) -> (result:
        EvmResult)
        ensures
            self.ran(old(ext).chain(), params@, old(ext)@, final(ext)@, result),
            final(ext)@.output.shaped_as(old(ext)@.output),
    ;
}

} // verus!
