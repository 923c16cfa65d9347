//! How a precompile call ends when it does not return a value.
use vstd::prelude::*;

verus! {

/// Why the EVM stops a call with an error.
#[derive(Clone, Copy, PartialEq, Eq, Debug)]
pub enum ExitError {
    /// The gas left does not pay for what the call is about to do.
    OutOfGas,
    /// An amount cannot be expressed in native units.
    OutOfFund,
    /// An amount cannot be expressed in EVM units.
    InvalidRange,
    /// Anything else, with the reason.
    Other(&'static str),
}

/// Why a precompile call failed.
#[derive(Clone, Copy, PartialEq, Eq, Debug)]
pub enum PrecompileFailure {
    /// The call is stopped with an error.
    Error { exit_status: ExitError },
    /// The call is reverted with a message.
    Revert { output: &'static str },
}

/// What a precompile call gives back.
pub type EvmResult<T> = Result<T, PrecompileFailure>;

/// The failure that an exit error makes.
pub open spec fn exit(exit_status: ExitError) -> PrecompileFailure {
    PrecompileFailure::Error { exit_status }
}

/// The failure that a revert message makes.
pub open spec fn reverted(output: &'static str) -> PrecompileFailure {
    PrecompileFailure::Revert { output }
}

/// Whether a call gave back `value`.
pub open spec fn answered<T>(result: EvmResult<T>, value: T) -> bool {
    result == Ok::<T, PrecompileFailure>(value)
}

/// Whether a call failed with `failure`.
pub open spec fn failed<T>(result: EvmResult<T>, failure: PrecompileFailure) -> bool {
    result == Err::<T, PrecompileFailure>(failure)
}

/// Stops the call with an error.
pub fn exit_with(exit_status: ExitError) -> (failure: PrecompileFailure)
    ensures
        failure == exit(exit_status),
{
    PrecompileFailure::Error { exit_status }
}

/// Reverts the call with a message.
pub fn revert(output: &'static str) -> (failure: PrecompileFailure)
    ensures
        failure == reverted(output),
{
    PrecompileFailure::Revert { output }
}

} // verus!
