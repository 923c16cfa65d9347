//! Approving a spender, and spending what was approved.
use crate::precompile::allowances::{
    approved, decreased, granted, increased, over_allowance, Grants,
};
use crate::precompile::call::{subtensor, Account, Dispatch, RuntimeCall, SubtensorCall};
use crate::precompile::convert::{as_u16, try_u16_from_u256};
use crate::precompile::failure::{answered, failed, EvmResult};
use crate::precompile::handle::{paid, paid_both, unpaid, unpaid_either, Handle};
use crate::precompile::runtime::Runtime;
use crate::precompile::staking_v2::StakingPrecompileV2;
use crate::primitives::{AccountId, H160, H256};
use crate::u256::{saturated_u64, U256};
use vstd::prelude::*;

verus! {

/// How an attempt to spend out of an allowance ends. Nothing to spend is free. Otherwise two reads
/// and a write are charged, and the allowance of the subnet's current registration is lowered by
/// the amount, or the attempt fails with the allowances as they were.
pub open spec fn consumption<R: Runtime>(
    runtime: R,
    before: Handle,
    after: Handle,
    grants: Grants,
    left: Grants,
    approver: H160,
    spender: H160,
    netuid: u16,
    amount: nat,
    outcome: EvmResult<()>,
) -> bool {
    let reads = before.reads_cost(2);
    let writes = before.writes_cost(1);
    ||| amount == 0 && answered(outcome, ()) && after == before && left == grants
    ||| amount != 0 && unpaid_either(before, after, reads, writes, outcome) && left == grants
    ||| amount != 0 && paid_both(before, after, reads, writes) && exists|counter: u64|
        {
            &&& #[trigger] call_ensures(
                R::get_registered_subnet_counter,
                (&runtime, netuid),
                counter,
            )
            &&& if amount <= granted(grants, approver, (spender, netuid, counter)) {
                answered(outcome, ()) && left == decreased(
                    grants,
                    approver,
                    (spender, netuid, counter),
                    amount,
                )
            } else {
                failed(outcome, over_allowance()) && left == grants
            }
        }
}

/// How a change of an allowance ends: the reads and a write are charged, the subnet is read out of
/// an EVM number, and `update` is made at the key of the subnet's current registration. Where the
/// call fails, the allowances are as they were.
pub open spec fn change<R: Runtime>(
    runtime: R,
    before: Handle,
    after: Handle,
    grants: Grants,
    left: Grants,
    reads: u64,
    spender: H160,
    origin_netuid: nat,
    update: spec_fn((H160, u16, u64)) -> Grants,
    result: EvmResult<()>,
) -> bool {
    let reads = before.reads_cost(reads);
    let writes = before.writes_cost(1);
    ||| unpaid_either(before, after, reads, writes, result) && left == grants
    ||| paid_both(before, after, reads, writes) && match as_u16(origin_netuid) {
        Err(failure) => failed(result, failure) && left == grants,
        Ok(netuid) => answered(result, ()) && exists|counter: u64|
            #[trigger] call_ensures(R::get_registered_subnet_counter, (&runtime, netuid), counter)
                && left == update((spender, netuid, counter)),
    }
}

impl<R: Runtime> StakingPrecompileV2<R> {
    /// The counter of the subnet's current registration, a part of the key of every allowance.
    pub fn current_subnet_counter(&self, netuid: u16) -> (counter: u64)
        ensures
            call_ensures(R::get_registered_subnet_counter, (&self.runtime, netuid), counter),
    {
        self.runtime.get_registered_subnet_counter(netuid)
    }

    /// Sets what `spender` may transfer of the caller's stake on a subnet.
    pub fn approve(
        &mut self,
        handle: &mut Handle,
        spender: H160,
        origin_netuid: U256,
        amount_alpha: U256,
    ) -> (result: EvmResult<()>)
        ensures
            final(self).runtime == old(self).runtime,
            change(
                old(self).runtime,
                *old(handle),
                *final(handle),
                old(self).allowances@,
                final(self).allowances@,
                1,
                spender,
                origin_netuid@,
                |key: (H160, u16, u64)|
                    approved(old(self).allowances@, old(handle).caller, key, amount_alpha@),
                result,
            ),
    {
        handle.record_db_reads(1)?;
        handle.record_db_writes(1)?;
        let netuid = try_u16_from_u256(origin_netuid)?;
        let counter: u64 = self.current_subnet_counter(netuid);
        self.allowances.approve(handle.caller, (spender, netuid, counter), amount_alpha);
        Ok(())
    }

    /// What `spender` may transfer of the stake of `source` on a subnet.
    pub fn allowance(
        &self,
        handle: &mut Handle,
        source: H160,
        spender: H160,
        origin_netuid: U256,
    ) -> (result: EvmResult<U256>)
        ensures
            ({
                let reads = old(handle).reads_cost(2);
                ||| unpaid(*old(handle), *final(handle), reads, result)
                ||| paid(*old(handle), *final(handle), reads) && match as_u16(origin_netuid@) {
                    Err(failure) => failed(result, failure),
                    Ok(netuid) => result is Ok && exists|counter: u64|
                        #[trigger] call_ensures(
                            R::get_registered_subnet_counter,
                            (&self.runtime, netuid),
                            counter,
                        ) && result->Ok_0@ == granted(
                            self.allowances@,
                            source,
                            (spender, netuid, counter),
                        ),
                }
            }),
    {
        handle.record_db_reads(2)?;
        let netuid = try_u16_from_u256(origin_netuid)?;
        let counter: u64 = self.current_subnet_counter(netuid);
        Ok(self.allowances.get(source, (spender, netuid, counter)))
    }

    /// Raises what `spender` may transfer of the caller's stake on a subnet.
    pub fn increase_allowance(
        &mut self,
        handle: &mut Handle,
        spender: H160,
        origin_netuid: U256,
        amount_alpha_increase: U256,
    ) -> (result: EvmResult<()>)
        ensures
            final(self).runtime == old(self).runtime,
            if amount_alpha_increase@ == 0 {
                answered(result, ()) && *final(handle) == *old(handle) && final(self).allowances@
                    == old(self).allowances@
            } else {
                change(
                    old(self).runtime,
                    *old(handle),
                    *final(handle),
                    old(self).allowances@,
                    final(self).allowances@,
                    2,
                    spender,
                    origin_netuid@,
                    |key: (H160, u16, u64)|
                        increased(
                            old(self).allowances@,
                            old(handle).caller,
                            key,
                            amount_alpha_increase@,
                        ),
                    result,
                )
            },
    {
        if amount_alpha_increase.is_zero() {
            return Ok(());
        }
        handle.record_db_reads(2)?;
        handle.record_db_writes(1)?;
        let netuid = try_u16_from_u256(origin_netuid)?;
        let counter: u64 = self.current_subnet_counter(netuid);
        self.allowances.increase(
            handle.caller,
            (spender, netuid, counter),
            amount_alpha_increase,
        );
        Ok(())
    }

    /// Lowers what `spender` may transfer of the caller's stake on a subnet.
    pub fn decrease_allowance(
        &mut self,
        handle: &mut Handle,
        spender: H160,
        origin_netuid: U256,
        amount_alpha_decrease: U256,
    ) -> (result: EvmResult<()>)
        ensures
            final(self).runtime == old(self).runtime,
            if amount_alpha_decrease@ == 0 {
                answered(result, ()) && *final(handle) == *old(handle) && final(self).allowances@
                    == old(self).allowances@
            } else {
                change(
                    old(self).runtime,
                    *old(handle),
                    *final(handle),
                    old(self).allowances@,
                    final(self).allowances@,
                    2,
                    spender,
                    origin_netuid@,
                    |key: (H160, u16, u64)|
                        decreased(
                            old(self).allowances@,
                            old(handle).caller,
                            key,
                            amount_alpha_decrease@,
                        ),
                    result,
                )
            },
    {
        if amount_alpha_decrease.is_zero() {
            return Ok(());
        }
        handle.record_db_reads(2)?;
        handle.record_db_writes(1)?;
        let netuid = try_u16_from_u256(origin_netuid)?;
        let counter: u64 = self.current_subnet_counter(netuid);
        self.allowances.decrease(
            handle.caller,
            (spender, netuid, counter),
            amount_alpha_decrease,
        );
        Ok(())
    }

    /// Spends `amount` of what `approver` lets `spender` transfer on a subnet.
    pub fn try_consume_allowance(
        &mut self,
        handle: &mut Handle,
        approver: H160,
        spender: H160,
        netuid: u16,
        amount: U256,
    ) -> (outcome: EvmResult<()>)
        ensures
            final(self).runtime == old(self).runtime,
            consumption(
                old(self).runtime,
                *old(handle),
                *final(handle),
                old(self).allowances@,
                final(self).allowances@,
                approver,
                spender,
                netuid,
                amount@,
                outcome,
            ),
    {
        if amount.is_zero() {
            return Ok(());
        }
        handle.record_db_reads(2)?;
        handle.record_db_writes(1)?;
        let counter: u64 = self.current_subnet_counter(netuid);
        self.allowances.consume(approver, (spender, netuid, counter), amount)
    }

    /// Transfers stake of `source_address` to `destination_address`, out of what the caller may
    /// spend of it. The whole amount is taken from the allowance, also where the transfer is cut
    /// off at the largest `u64`.
    pub fn transfer_stake_from(
        &mut self,
        handle: &mut Handle,
        source_address: H160,
        destination_address: H160,
        hotkey: H256,
        origin_netuid: U256,
        destination_netuid: U256,
        amount_alpha: U256,
    ) -> (result: EvmResult<Dispatch>)
        ensures
            final(self).runtime == old(self).runtime,
            match (as_u16(origin_netuid@), as_u16(destination_netuid@)) {
                (Err(failure), _) | (Ok(_), Err(failure)) => {
                    &&& failed(result, failure)
                    &&& *final(handle) == *old(handle)
                    &&& final(self).allowances@ == old(self).allowances@
                },
                (Ok(origin), Ok(destination)) => {
                    exists|outcome: EvmResult<()>|
                        {
                            &&& #[trigger] consumption(
                                old(self).runtime,
                                *old(handle),
                                *final(handle),
                                old(self).allowances@,
                                final(self).allowances@,
                                source_address,
                                old(handle).caller,
                                origin,
                                amount_alpha@,
                                outcome,
                            )
                            &&& match outcome {
                                Err(failure) => failed(result, failure),
                                Ok(_) => answered(
                                    result,
                                    subtensor(
                                        source_address,
                                        SubtensorCall::TransferStake {
                                            destination_coldkey: Account::Mapped(
                                                destination_address,
                                            ),
                                            hotkey: AccountId(hotkey.0),
                                            origin_netuid: origin,
                                            destination_netuid: destination,
                                            alpha_amount: saturated_u64(amount_alpha@),
                                        },
                                    ),
                                ),
                            }
                        }
                },
            },
    {
        let origin = try_u16_from_u256(origin_netuid)?;
        let destination = try_u16_from_u256(destination_netuid)?;
        let alpha_amount: u64 = amount_alpha.unique_saturated_into_u64();
        let caller = handle.caller;
        let outcome = self.try_consume_allowance(
            handle,
            source_address,
            caller,
            origin,
            amount_alpha,
        );
        match outcome {
            Err(failure) => Err(failure),
            Ok(_) => {
                let call = SubtensorCall::TransferStake {
                    destination_coldkey: Account::Mapped(destination_address),
                    hotkey: hotkey.account(),
                    origin_netuid: origin,
                    destination_netuid: destination,
                    alpha_amount,
                };
                Ok(Dispatch { signer: source_address, call: RuntimeCall::Subtensor(call) })
            },
        }
    }
}

} // verus!
