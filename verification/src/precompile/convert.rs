//! Narrowing the EVM's numbers, and the fixed-point numbers of conviction.
use crate::precompile::failure::{exit, exit_with, EvmResult, ExitError};
use crate::precompile::runtime::Runtime;
use crate::u256::U256;
use substrate_fixed::types::U64F64;
use vstd::prelude::*;

verus! {

/// What an EVM number is as a `u16`, or the failure where none holds it.
pub open spec fn as_u16(value: nat) -> EvmResult<u16> {
    if value <= u16::MAX {
        Ok(value as u16)
    } else {
        Err(exit(ExitError::Other("the value is outside of u16 bounds")))
    }
}

/// What an EVM number is as a `u64`, or the failure where none holds it.
pub open spec fn as_u64(value: nat) -> EvmResult<u64> {
    if value <= u64::MAX {
        Ok(value as u64)
    } else {
        Err(exit(ExitError::Other("the value is outside of u64 bounds")))
    }
}

/// Reads a `u16`, most often a subnet, out of an EVM number. Nothing is cut off: a number that no
/// `u16` holds is a failure.
pub fn try_u16_from_u256(value: U256) -> (narrow: EvmResult<u16>)
    ensures
        narrow == as_u16(value@),
{
    match value.try_u16() {
        Some(narrow) => Ok(narrow),
        None => Err(exit_with(ExitError::Other("the value is outside of u16 bounds"))),
    }
}

/// Reads a `u64` out of an EVM number. Nothing is cut off: a number that no `u64` holds is a
/// failure.
pub fn try_u64_from_u256(value: U256) -> (narrow: EvmResult<u64>)
    ensures
        narrow == as_u64(value@),
{
    match value.try_u64() {
        Some(narrow) => Ok(narrow),
        None => Err(exit_with(ExitError::Other("the value is outside of u64 bounds"))),
    }
}

/// The answer that an amount in EVM units makes, or the failure where there is none.
pub open spec fn in_range(amount: Option<U256>) -> EvmResult<U256> {
    match amount {
        Some(amount) => Ok(amount),
        None => Err(exit(ExitError::InvalidRange)),
    }
}

/// Answers with an amount in EVM units.
pub fn evm_amount(amount: Option<U256>) -> (result: EvmResult<U256>)
    ensures
        result == in_range(amount),
{
    match amount {
        Some(amount) => Ok(amount),
        None => Err(exit_with(ExitError::InvalidRange)),
    }
}

/// Whether a result is what the chain makes of a native amount in EVM units.
pub open spec fn in_evm_units<R: Runtime>(
    runtime: R,
    value: u64,
    result: EvmResult<U256>,
) -> bool {
    exists|amount: Option<U256>|
        #[trigger] call_ensures(R::into_evm_balance, (&runtime, value), amount) && result
            == in_range(amount)
}

/// A native amount in EVM units.
pub fn tao_to_evm<R: Runtime>(runtime: &R, value: u64) -> (result: EvmResult<U256>)
    ensures
        in_evm_units(*runtime, value, result),
{
    evm_amount(runtime.into_evm_balance(value))
}

/// The sum, or the largest `u128` where it does not fit.
pub open spec fn saturated_bits(a: u128, b: u128) -> u128 {
    if a + b > u128::MAX {
        u128::MAX
    } else {
        (a + b) as u128
    }
}

/// `substrate_fixed::types::U64F64::saturating_add` on the numbers that `from_bits` makes, by
/// `to_bits`: the sum of the bits, or all bits set where the sum does not fit.
#[verifier::external_body]
pub(crate) fn add_convictions(a: u128, b: u128) -> (sum: u128)
    ensures
        sum == saturated_bits(a, b),
{
    U64F64::from_bits(a).saturating_add(U64F64::from_bits(b)).to_bits()
}

} // verus!
