//! The call that a precompile answers, and the gas that it charges for the answer.
use crate::precompile::failure::{exit, exit_with, failed, EvmResult, ExitError};
use crate::primitives::H160;
use crate::u256::U256;
use vstd::prelude::*;

verus! {

/// The product, or the largest `u64` where it does not fit.
pub open spec fn saturated_product(a: u64, b: u64) -> u64 {
    if a * b > u64::MAX {
        u64::MAX
    } else {
        (a * b) as u64
    }
}

/// The sum, or the largest `u64` where it does not fit.
pub open spec fn saturated_sum(a: u64, b: u64) -> u64 {
    if a + b > u64::MAX {
        u64::MAX
    } else {
        (a + b) as u64
    }
}

/// Multiplies two numbers, stopping at the largest `u64`.
pub fn saturating_mul(a: u64, b: u64) -> (product: u64)
    ensures
        product == saturated_product(a, b),
{
    match a.checked_mul(b) {
        Some(product) => product,
        None => u64::MAX,
    }
}

/// A call to a precompile.
#[derive(Clone, Copy, PartialEq, Eq, Debug)]
pub struct Handle {
    /// Who calls.
    pub caller: H160,
    /// The value sent with the call, in EVM units.
    pub apparent_value: U256,
    /// The gas that the call may still spend.
    pub gas_left: u64,
    /// The gas for one read of the chain's storage.
    pub db_read_gas: u64,
    /// The gas for one write to the chain's storage.
    pub db_write_gas: u64,
}

impl Handle {
    /// The call after `cost` gas was charged.
    pub open spec fn spent(self, cost: u64) -> Handle {
        Handle { gas_left: (self.gas_left - cost) as u64, ..self }
    }

    /// The gas for `reads` reads of the chain's storage.
    pub open spec fn reads_cost(self, reads: u64) -> u64 {
        saturated_product(self.db_read_gas, reads)
    }

    /// The gas for `writes` writes to the chain's storage.
    pub open spec fn writes_cost(self, writes: u64) -> u64 {
        saturated_product(self.db_write_gas, writes)
    }
}

/// Whether `cost` was charged: there was gas for it, and that much less is left.
pub open spec fn paid(before: Handle, after: Handle, cost: u64) -> bool {
    cost <= before.gas_left && after == before.spent(cost)
}

/// Whether the call ended for want of `cost` gas, with no gas charged.
pub open spec fn unpaid<T>(
    before: Handle,
    after: Handle,
    cost: u64,
    result: EvmResult<T>,
) -> bool {
    cost > before.gas_left && after == before && failed(
        result,
        exit(ExitError::OutOfGas),
    )
}

/// Whether `first` and then `second` were charged.
pub open spec fn paid_both(before: Handle, after: Handle, first: u64, second: u64) -> bool {
    first <= before.gas_left && paid(before.spent(first), after, second)
}

/// Whether the call ended for want of `first` gas, or of `second` gas with `first` charged.
pub open spec fn unpaid_either<T>(
    before: Handle,
    after: Handle,
    first: u64,
    second: u64,
    result: EvmResult<T>,
) -> bool {
    unpaid(before, after, first, result) || (first <= before.gas_left && unpaid(
        before.spent(first),
        after,
        second,
        result,
    ))
}

impl Handle {
    /// Charges `cost` gas. Where less is left, nothing is charged and the call is out of gas.
    pub fn record_cost(&mut self, cost: u64) -> (charged: EvmResult<()>)
        ensures
            unpaid(*old(self), *final(self), cost, charged) || (paid(
                *old(self),
                *final(self),
                cost,
            ) && charged is Ok),
    {
        if cost > self.gas_left {
            return Err(exit_with(ExitError::OutOfGas));
        }
        self.gas_left = self.gas_left - cost;
        Ok(())
    }

    /// Charges for `reads` reads of the chain's storage.
    pub fn record_db_reads(&mut self, reads: u64) -> (charged: EvmResult<()>)
        ensures
            unpaid(*old(self), *final(self), old(self).reads_cost(reads), charged) || (paid(
                *old(self),
                *final(self),
                old(self).reads_cost(reads),
            ) && charged is Ok),
    {
        self.record_cost(saturating_mul(self.db_read_gas, reads))
    }

    /// Charges for `writes` writes to the chain's storage.
    pub fn record_db_writes(&mut self, writes: u64) -> (charged: EvmResult<()>)
        ensures
            unpaid(*old(self), *final(self), old(self).writes_cost(writes), charged) || (paid(
                *old(self),
                *final(self),
                old(self).writes_cost(writes),
            ) && charged is Ok),
    {
        self.record_cost(saturating_mul(self.db_write_gas, writes))
    }
}

} // verus!
