//! The older staking precompile, kept for compatibility. Amounts are in EVM units, and stake is
//! paid for with the value that is sent along.
//!
//! Adding stake takes two steps, with a transfer between them: [`StakingPrecompile::transfer_back`]
//! says which transfer to make from the precompile's own account, and
//! [`StakingPrecompile::add_stake`] goes on from how that ended.
use crate::precompile::accounting::{
    coldkey_scan, hotkey_scan, record_total_coldkey_stake_reads, record_total_hotkey_stake_reads,
};
use crate::precompile::call::{
    dispatch_proxy, dispatch_subtensor, proxy, subtensor, Dispatch, ProxyCall, ProxyType,
    SubtensorCall,
};
use crate::precompile::convert::{as_u16, in_evm_units, tao_to_evm, try_u16_from_u256};
use crate::precompile::costs::STAKE_INFO_READS_PER_HOTKEY;
use crate::precompile::failure::{
    answered, exit, exit_with, failed, EvmResult, ExitError, PrecompileFailure,
};
use crate::precompile::handle::{paid, unpaid, Handle};
use crate::precompile::runtime::Runtime;
use crate::primitives::{AccountId, H160, H256};
use crate::u256::{saturated_u64, U256};
use vstd::prelude::*;

verus! {

/// The older staking precompile, over the chain that it stands on.
pub struct StakingPrecompile<R: Runtime> {
    pub runtime: R,
}

/// A transfer of native tokens from a precompile's own account to the account that an EVM address
/// maps to.
#[derive(Clone, Copy, PartialEq, Eq, Debug)]
pub struct Transfer {
    /// The number of the precompile whose account pays.
    pub source: u64,
    pub dest: H160,
    pub value: u64,
}

/// How the transfer back to the caller ended.
#[derive(Clone, Copy, PartialEq, Eq, Debug)]
pub enum TransferBack {
    /// No value was sent, so there was nothing to transfer.
    NotNeeded,
    /// The value is back on the caller's account.
    Done,
    /// The transfer was refused.
    Failed,
}

/// The native amount that an EVM amount makes, cut off at the largest `u64`, or the failure where
/// there is none.
pub open spec fn funds(amount: Option<U256>) -> EvmResult<u64> {
    match amount {
        Some(amount) => Ok(saturated_u64(amount@)),
        None => Err(exit(ExitError::OutOfFund)),
    }
}

/// The native amount that an EVM amount makes.
pub fn funds_of(amount: Option<U256>) -> (result: EvmResult<u64>)
    ensures
        result == funds(amount),
{
    match amount {
        Some(amount) => Ok(amount.unique_saturated_into_u64()),
        None => Err(exit_with(ExitError::OutOfFund)),
    }
}

/// The failure of a native amount that the chain's balances cannot hold.
pub open spec fn no_balance() -> PrecompileFailure {
    exit(ExitError::Other("Failed to convert u64 to Balance"))
}

/// The failure of a transfer that was refused.
pub open spec fn not_transferred() -> PrecompileFailure {
    exit(ExitError::Other("Transfer back to caller failed"))
}

/// Whether a result is the transfer of `amount` to `caller`, in native units, or why there is none.
pub open spec fn transfer_planned<R: Runtime>(
    runtime: R,
    caller: H160,
    amount: U256,
    result: EvmResult<Transfer>,
) -> bool {
    exists|native: Option<U256>|
        {
            &&& #[trigger] call_ensures(R::into_substrate_balance, (&runtime, amount), native)
            &&& match funds(native) {
                Err(failure) => failed(result, failure),
                Ok(value) => exists|held: bool|
                    #[trigger] call_ensures(R::holds_balance, (&runtime, value), held) && if held {
                        answered(result, Transfer { source: StakingPrecompile::<R>::INDEX, dest: caller, value })
                    } else {
                        failed(result, no_balance())
                    },
            }
        }
}

/// Whether a result is the call that stakes the value sent, in native units, or why there is none.
pub open spec fn stake_planned<R: Runtime>(
    runtime: R,
    handle: Handle,
    address: H256,
    netuid: nat,
    transfer: TransferBack,
    result: EvmResult<Dispatch>,
) -> bool {
    if transfer == TransferBack::Failed {
        failed(result, not_transferred())
    } else {
        exists|native: EvmResult<U256>|
            {
                &&& #[trigger] call_ensures(
                    R::try_convert_apparent_value,
                    (&runtime, handle.apparent_value),
                    native,
                )
                &&& match (native, as_u16(netuid)) {
                    (Err(failure), _) | (Ok(_), Err(failure)) => failed(result, failure),
                    (Ok(amount), Ok(subnet)) => answered(
                        result,
                        subtensor(
                            handle.caller,
                            SubtensorCall::AddStake {
                                hotkey: AccountId(address.0),
                                netuid: subnet,
                                amount_staked: saturated_u64(amount@),
                            },
                        ),
                    ),
                }
            }
    }
}

/// Whether a result is all stake of a coldkey, in EVM units, charged for before it is read.
pub open spec fn coldkey_stake_converted<R: Runtime>(
    runtime: R,
    before: Handle,
    after: Handle,
    coldkey: AccountId,
    result: EvmResult<U256>,
) -> bool {
    exists|charged: EvmResult<()>|
        {
            &&& #[trigger] coldkey_scan(runtime, before, after, coldkey, None, charged)
            &&& match charged {
                Err(failure) => failed(result, failure),
                Ok(_) => exists|stake: u64|
                    #[trigger] call_ensures(
                        R::get_total_stake_for_coldkey,
                        (&runtime, coldkey),
                        stake,
                    ) && in_evm_units(runtime, stake, result),
            }
        }
}

/// Whether a result is all stake on a hotkey, in EVM units, charged for before it is read.
pub open spec fn hotkey_stake_converted<R: Runtime>(
    runtime: R,
    before: Handle,
    after: Handle,
    hotkey: AccountId,
    result: EvmResult<U256>,
) -> bool {
    exists|charged: EvmResult<()>|
        {
            &&& #[trigger] hotkey_scan(runtime, before, after, charged)
            &&& match charged {
                Err(failure) => failed(result, failure),
                Ok(_) => exists|stake: u64|
                    #[trigger] call_ensures(
                        R::get_total_stake_for_hotkey,
                        (&runtime, hotkey),
                        stake,
                    ) && in_evm_units(runtime, stake, result),
            }
        }
}

/// Whether a result is the stake of a coldkey on a hotkey of a subnet, in EVM units, charged for
/// before it is read.
pub open spec fn stake_converted<R: Runtime>(
    runtime: R,
    before: Handle,
    after: Handle,
    hotkey: AccountId,
    coldkey: AccountId,
    netuid: nat,
    result: EvmResult<U256>,
) -> bool {
    let cost = before.reads_cost(STAKE_INFO_READS_PER_HOTKEY);
    ||| unpaid(before, after, cost, result)
    ||| paid(before, after, cost) && match as_u16(netuid) {
        Err(failure) => failed(result, failure),
        Ok(subnet) => exists|stake: u64|
            #[trigger] call_ensures(
                R::get_stake_for_hotkey_and_coldkey_on_subnet,
                (&runtime, hotkey, coldkey, subnet),
                stake,
            ) && in_evm_units(runtime, stake, result),
    }
}

impl<R: Runtime> StakingPrecompile<R> {
    /// The number that the precompile's address is made of.
    pub const INDEX: u64 = 2049;

    /// The transfer that gives `amount` back to `caller`.
    pub fn transfer_back_to_caller(
        &self,
        caller: H160,
        amount: U256,
    ) -> (result: EvmResult<Transfer>)
        ensures
            transfer_planned(self.runtime, caller, amount, result),
    {
        let native = self.runtime.into_substrate_balance(amount);
        let value: u64 = match funds_of(native) {
            Err(failure) => {
                return Err(failure);
            },
            Ok(value) => value,
        };
        if self.runtime.holds_balance(value) {
            Ok(Transfer { source: Self::INDEX, dest: caller, value })
        } else {
            Err(exit_with(ExitError::Other("Failed to convert u64 to Balance")))
        }
    }

    /// The first step of adding stake: the transfer that gives the value sent back to the caller,
    /// where any was sent.
    pub fn transfer_back(&self, handle: &Handle) -> (result: EvmResult<Option<Transfer>>)
        ensures
            if handle.apparent_value@ == 0 {
                answered(result, None)
            } else {
                exists|planned: EvmResult<Transfer>|
                    {
                        &&& #[trigger] transfer_planned(
                            self.runtime,
                            handle.caller,
                            handle.apparent_value,
                            planned,
                        )
                        &&& match planned {
                            Err(failure) => failed(result, failure),
                            Ok(transfer) => answered(result, Some(transfer)),
                        }
                    }
            },
    {
        if handle.apparent_value.is_zero() {
            return Ok(None);
        }
        let planned = self.transfer_back_to_caller(handle.caller, handle.apparent_value);
        match planned {
            Err(failure) => Err(failure),
            Ok(transfer) => Ok(Some(transfer)),
        }
    }

    /// The second step of adding stake: stakes the value that was sent, now that the transfer back
    /// has ended.
    pub fn add_stake(
        &self,
        handle: &Handle,
        address: H256,
        netuid: U256,
        transfer: TransferBack,
    ) -> (result: EvmResult<Dispatch>)
        ensures
            stake_planned(self.runtime, *handle, address, netuid@, transfer, result),
    {
        match transfer {
            TransferBack::Failed => {
                return Err(exit_with(ExitError::Other("Transfer back to caller failed")));
            },
            TransferBack::NotNeeded | TransferBack::Done => {},
        }
        let native = self.runtime.try_convert_apparent_value(handle.apparent_value);
        match native {
            Err(failure) => Err(failure),
            Ok(amount) => {
                let subnet = try_u16_from_u256(netuid)?;
                dispatch_subtensor(
                    handle,
                    SubtensorCall::AddStake {
                        hotkey: address.account(),
                        netuid: subnet,
                        amount_staked: amount.unique_saturated_into_u64(),
                    },
                )
            },
        }
    }

    /// Unstakes from a hotkey.
    pub fn remove_stake(
        &self,
        handle: &Handle,
        address: H256,
        amount: U256,
        netuid: U256,
    ) -> (result: EvmResult<Dispatch>)
        ensures
            match as_u16(netuid@) {
                Err(failure) => failed(result, failure),
                Ok(subnet) => exists|native: Option<U256>|
                    {
                        &&& #[trigger] call_ensures(
                            R::into_substrate_balance,
                            (&self.runtime, amount),
                            native,
                        )
                        &&& match funds(native) {
                            Err(failure) => failed(result, failure),
                            Ok(amount_unstaked) => answered(
                                result,
                                subtensor(
                                    handle.caller,
                                    SubtensorCall::RemoveStake {
                                        hotkey: AccountId(address.0),
                                        netuid: subnet,
                                        amount_unstaked,
                                    },
                                ),
                            ),
                        }
                    },
            },
    {
        let subnet = try_u16_from_u256(netuid)?;
        let native = self.runtime.into_substrate_balance(amount);
        match funds_of(native) {
            Err(failure) => Err(failure),
            Ok(amount_unstaked) => dispatch_subtensor(
                handle,
                SubtensorCall::RemoveStake {
                    hotkey: address.account(),
                    netuid: subnet,
                    amount_unstaked,
                },
            ),
        }
    }

    /// All stake of a coldkey, in EVM units.
    pub fn get_total_coldkey_stake(
        &self,
        handle: &mut Handle,
        coldkey: H256,
    ) -> (result: EvmResult<U256>)
        ensures
            coldkey_stake_converted(
                self.runtime,
                *old(handle),
                *final(handle),
                AccountId(coldkey.0),
                result,
            ),
    {
        let coldkey = coldkey.account();
        let charged = record_total_coldkey_stake_reads(&self.runtime, handle, coldkey, None);
        match charged {
            Err(failure) => Err(failure),
            Ok(_) => {
                let stake: u64 = self.runtime.get_total_stake_for_coldkey(coldkey);
                tao_to_evm(&self.runtime, stake)
            },
        }
    }

    /// All stake on a hotkey, in EVM units.
    pub fn get_total_hotkey_stake(
        &self,
        handle: &mut Handle,
        hotkey: H256,
    ) -> (result: EvmResult<U256>)
        ensures
            hotkey_stake_converted(
                self.runtime,
                *old(handle),
                *final(handle),
                AccountId(hotkey.0),
                result,
            ),
    {
        let charged = record_total_hotkey_stake_reads(&self.runtime, handle);
        match charged {
            Err(failure) => Err(failure),
            Ok(_) => {
                let stake: u64 = self.runtime.get_total_stake_for_hotkey(hotkey.account());
                tao_to_evm(&self.runtime, stake)
            },
        }
    }

    /// The stake of a coldkey on a hotkey of a subnet, in EVM units.
    pub fn get_stake(
        &self,
        handle: &mut Handle,
        hotkey: H256,
        coldkey: H256,
        netuid: U256,
    ) -> (result: EvmResult<U256>)
        ensures
            stake_converted(
                self.runtime,
                *old(handle),
                *final(handle),
                AccountId(hotkey.0),
                AccountId(coldkey.0),
                netuid@,
                result,
            ),
    {
        handle.record_db_reads(STAKE_INFO_READS_PER_HOTKEY)?;
        let subnet = try_u16_from_u256(netuid)?;
        let stake: u64 = self.runtime.get_stake_for_hotkey_and_coldkey_on_subnet(
            hotkey.account(),
            coldkey.account(),
            subnet,
        );
        tao_to_evm(&self.runtime, stake)
    }

    /// Lets `delegate` stake for the caller.
    pub fn add_proxy(&self, handle: &Handle, delegate: H256) -> (result: EvmResult<Dispatch>)
        ensures
            answered(
                result,
                proxy(
                    handle.caller,
                    ProxyCall::AddProxy {
                        delegate: AccountId(delegate.0),
                        proxy_type: ProxyType::Staking,
                        delay: 0,
                    },
                ),
            ),
    {
        dispatch_proxy(
            handle,
            ProxyCall::AddProxy {
                delegate: delegate.account(),
                proxy_type: ProxyType::Staking,
                delay: 0,
            },
        )
    }

    /// Lets `delegate` stake for the caller no more.
    pub fn remove_proxy(&self, handle: &Handle, delegate: H256) -> (result: EvmResult<Dispatch>)
        ensures
            answered(
                result,
                proxy(
                    handle.caller,
                    ProxyCall::RemoveProxy {
                        delegate: AccountId(delegate.0),
                        proxy_type: ProxyType::Staking,
                        delay: 0,
                    },
                ),
            ),
    {
        dispatch_proxy(
            handle,
            ProxyCall::RemoveProxy {
                delegate: delegate.account(),
                proxy_type: ProxyType::Staking,
                delay: 0,
            },
        )
    }
}

} // verus!
