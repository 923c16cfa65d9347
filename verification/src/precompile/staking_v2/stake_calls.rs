//! The calls that add, remove, move and burn stake.
use crate::precompile::call::{dispatch_subtensor, subtensor, Account, Dispatch, SubtensorCall};
use crate::precompile::convert::{as_u16, as_u64, try_u16_from_u256, try_u64_from_u256};
use crate::precompile::failure::{answered, failed, EvmResult};
use crate::precompile::handle::Handle;
use crate::precompile::runtime::Runtime;
use crate::precompile::staking_v2::StakingPrecompileV2;
use crate::primitives::{AccountId, H256};
use crate::u256::{saturated_u64, U256};
use vstd::prelude::*;

verus! {

impl<R: Runtime> StakingPrecompileV2<R> {
    /// Stakes on a hotkey. An amount above the largest `u64` is cut off there.
    pub fn add_stake(
        &self,
        handle: &Handle,
        address: H256,
        amount_rao: U256,
        netuid: U256,
    ) -> (result: EvmResult<Dispatch>)
        ensures
            match as_u16(netuid@) {
                Err(failure) => failed(result, failure),
                Ok(subnet) => answered(
                    result,
                    subtensor(
                        handle.caller,
                        SubtensorCall::AddStake {
                            hotkey: AccountId(address.0),
                            netuid: subnet,
                            amount_staked: saturated_u64(amount_rao@),
                        },
                    ),
                ),
            },
    {
        let subnet = try_u16_from_u256(netuid)?;
        dispatch_subtensor(
            handle,
            SubtensorCall::AddStake {
                hotkey: address.account(),
                netuid: subnet,
                amount_staked: amount_rao.unique_saturated_into_u64(),
            },
        )
    }

    /// Unstakes from a hotkey. An amount above the largest `u64` is cut off there.
    pub fn remove_stake(
        &self,
        handle: &Handle,
        address: H256,
        amount_alpha: U256,
        netuid: U256,
    ) -> (result: EvmResult<Dispatch>)
        ensures
            match as_u16(netuid@) {
                Err(failure) => failed(result, failure),
                Ok(subnet) => answered(
                    result,
                    subtensor(
                        handle.caller,
                        SubtensorCall::RemoveStake {
                            hotkey: AccountId(address.0),
                            netuid: subnet,
                            amount_unstaked: saturated_u64(amount_alpha@),
                        },
                    ),
                ),
            },
    {
        let subnet = try_u16_from_u256(netuid)?;
        dispatch_subtensor(
            handle,
            SubtensorCall::RemoveStake {
                hotkey: address.account(),
                netuid: subnet,
                amount_unstaked: amount_alpha.unique_saturated_into_u64(),
            },
        )
    }

    /// Unstakes everything from a hotkey, within a price limit where there is one.
    pub fn call_remove_stake_full_limit(
        &self,
        handle: &Handle,
        hotkey: H256,
        netuid: U256,
        limit_price: Option<u64>,
    ) -> (result: EvmResult<Dispatch>)
        ensures
            match as_u16(netuid@) {
                Err(failure) => failed(result, failure),
                Ok(subnet) => answered(
                    result,
                    subtensor(
                        handle.caller,
                        SubtensorCall::RemoveStakeFullLimit {
                            hotkey: AccountId(hotkey.0),
                            netuid: subnet,
                            limit_price,
                        },
                    ),
                ),
            },
    {
        let subnet = try_u16_from_u256(netuid)?;
        dispatch_subtensor(
            handle,
            SubtensorCall::RemoveStakeFullLimit {
                hotkey: hotkey.account(),
                netuid: subnet,
                limit_price,
            },
        )
    }

    /// Unstakes everything from a hotkey at any price.
    pub fn remove_stake_full(
        &self,
        handle: &Handle,
        hotkey: H256,
        netuid: U256,
    ) -> (result: EvmResult<Dispatch>)
        ensures
            match as_u16(netuid@) {
                Err(failure) => failed(result, failure),
                Ok(subnet) => answered(
                    result,
                    subtensor(
                        handle.caller,
                        SubtensorCall::RemoveStakeFullLimit {
                            hotkey: AccountId(hotkey.0),
                            netuid: subnet,
                            limit_price: None,
                        },
                    ),
                ),
            },
    {
        self.call_remove_stake_full_limit(handle, hotkey, netuid, None)
    }

    /// Unstakes everything from a hotkey within a price limit.
    pub fn remove_stake_full_limit(
        &self,
        handle: &Handle,
        hotkey: H256,
        netuid: U256,
        limit_price: U256,
    ) -> (result: EvmResult<Dispatch>)
        ensures
            match as_u64(limit_price@) {
                Err(failure) => failed(result, failure),
                Ok(limit) => match as_u16(netuid@) {
                    Err(failure) => failed(result, failure),
                    Ok(subnet) => answered(
                        result,
                        subtensor(
                            handle.caller,
                            SubtensorCall::RemoveStakeFullLimit {
                                hotkey: AccountId(hotkey.0),
                                netuid: subnet,
                                limit_price: Some(limit),
                            },
                        ),
                    ),
                },
            },
    {
        let limit = try_u64_from_u256(limit_price)?;
        self.call_remove_stake_full_limit(handle, hotkey, netuid, Some(limit))
    }

    /// Moves stake to another hotkey. An amount above the largest `u64` is cut off there.
    pub fn move_stake(
        &self,
        handle: &Handle,
        origin_hotkey: H256,
        destination_hotkey: H256,
        origin_netuid: U256,
        destination_netuid: U256,
        amount_alpha: U256,
    ) -> (result: EvmResult<Dispatch>)
        ensures
            match as_u16(origin_netuid@) {
                Err(failure) => failed(result, failure),
                Ok(origin) => match as_u16(destination_netuid@) {
                    Err(failure) => failed(result, failure),
                    Ok(destination) => answered(
                        result,
                        subtensor(
                            handle.caller,
                            SubtensorCall::MoveStake {
                                origin_hotkey: AccountId(origin_hotkey.0),
                                destination_hotkey: AccountId(destination_hotkey.0),
                                origin_netuid: origin,
                                destination_netuid: destination,
                                alpha_amount: saturated_u64(amount_alpha@),
                            },
                        ),
                    ),
                },
            },
    {
        let origin = try_u16_from_u256(origin_netuid)?;
        let destination = try_u16_from_u256(destination_netuid)?;
        dispatch_subtensor(
            handle,
            SubtensorCall::MoveStake {
                origin_hotkey: origin_hotkey.account(),
                destination_hotkey: destination_hotkey.account(),
                origin_netuid: origin,
                destination_netuid: destination,
                alpha_amount: amount_alpha.unique_saturated_into_u64(),
            },
        )
    }

    /// Transfers stake to another coldkey. An amount above the largest `u64` is cut off there.
    pub fn transfer_stake(
        &self,
        handle: &Handle,
        destination_coldkey: H256,
        hotkey: H256,
        origin_netuid: U256,
        destination_netuid: U256,
        amount_alpha: U256,
    ) -> (result: EvmResult<Dispatch>)
        ensures
            match as_u16(origin_netuid@) {
                Err(failure) => failed(result, failure),
                Ok(origin) => match as_u16(destination_netuid@) {
                    Err(failure) => failed(result, failure),
                    Ok(destination) => answered(
                        result,
                        subtensor(
                            handle.caller,
                            SubtensorCall::TransferStake {
                                destination_coldkey: Account::Native(AccountId(destination_coldkey.0)),
                                hotkey: AccountId(hotkey.0),
                                origin_netuid: origin,
                                destination_netuid: destination,
                                alpha_amount: saturated_u64(amount_alpha@),
                            },
                        ),
                    ),
                },
            },
    {
        let origin = try_u16_from_u256(origin_netuid)?;
        let destination = try_u16_from_u256(destination_netuid)?;
        dispatch_subtensor(
            handle,
            SubtensorCall::TransferStake {
                destination_coldkey: Account::Native(destination_coldkey.account()),
                hotkey: hotkey.account(),
                origin_netuid: origin,
                destination_netuid: destination,
                alpha_amount: amount_alpha.unique_saturated_into_u64(),
            },
        )
    }

    /// Burns staked alpha. An amount above the largest `u64` is cut off there.
    pub fn burn_alpha(
        &self,
        handle: &Handle,
        hotkey: H256,
        amount: U256,
        netuid: U256,
    ) -> (result: EvmResult<Dispatch>)
        ensures
            match as_u16(netuid@) {
                Err(failure) => failed(result, failure),
                Ok(subnet) => answered(
                    result,
                    subtensor(
                        handle.caller,
                        SubtensorCall::BurnAlpha {
                            hotkey: AccountId(hotkey.0),
                            amount: saturated_u64(amount@),
                            netuid: subnet,
                        },
                    ),
                ),
            },
    {
        let subnet = try_u16_from_u256(netuid)?;
        dispatch_subtensor(
            handle,
            SubtensorCall::BurnAlpha {
                hotkey: hotkey.account(),
                amount: amount.unique_saturated_into_u64(),
                netuid: subnet,
            },
        )
    }

    /// Stakes on a hotkey within a price limit. Numbers are cut off at the largest `u64`.
    pub fn add_stake_limit(
        &self,
        handle: &Handle,
        address: H256,
        amount_rao: U256,
        limit_price_rao: U256,
        allow_partial: bool,
        netuid: U256,
    ) -> (result: EvmResult<Dispatch>)
        ensures
            match as_u16(netuid@) {
                Err(failure) => failed(result, failure),
                Ok(subnet) => answered(
                    result,
                    subtensor(
                        handle.caller,
                        SubtensorCall::AddStakeLimit {
                            hotkey: AccountId(address.0),
                            netuid: subnet,
                            amount_staked: saturated_u64(amount_rao@),
                            limit_price: saturated_u64(limit_price_rao@),
                            allow_partial,
                        },
                    ),
                ),
            },
    {
        let subnet = try_u16_from_u256(netuid)?;
        dispatch_subtensor(
            handle,
            SubtensorCall::AddStakeLimit {
                hotkey: address.account(),
                netuid: subnet,
                amount_staked: amount_rao.unique_saturated_into_u64(),
                limit_price: limit_price_rao.unique_saturated_into_u64(),
                allow_partial,
            },
        )
    }

    /// Unstakes from a hotkey within a price limit. Numbers are cut off at the largest `u64`.
    pub fn remove_stake_limit(
        &self,
        handle: &Handle,
        address: H256,
        amount_alpha: U256,
        limit_price_rao: U256,
        allow_partial: bool,
        netuid: U256,
    ) -> (result: EvmResult<Dispatch>)
        ensures
            match as_u16(netuid@) {
                Err(failure) => failed(result, failure),
                Ok(subnet) => answered(
                    result,
                    subtensor(
                        handle.caller,
                        SubtensorCall::RemoveStakeLimit {
                            hotkey: AccountId(address.0),
                            netuid: subnet,
                            amount_unstaked: saturated_u64(amount_alpha@),
                            limit_price: saturated_u64(limit_price_rao@),
                            allow_partial,
                        },
                    ),
                ),
            },
    {
        let subnet = try_u16_from_u256(netuid)?;
        dispatch_subtensor(
            handle,
            SubtensorCall::RemoveStakeLimit {
                hotkey: address.account(),
                netuid: subnet,
                amount_unstaked: amount_alpha.unique_saturated_into_u64(),
                limit_price: limit_price_rao.unique_saturated_into_u64(),
                allow_partial,
            },
        )
    }

    /// Unstakes everything from a hotkey on all subnets.
    pub fn unstake_all(
        &self,
        handle: &Handle,
        hotkey: H256,
    ) -> (result: EvmResult<Dispatch>)
        ensures
            answered(
                result,
                subtensor(
                    handle.caller,
                    SubtensorCall::UnstakeAll {
                        hotkey: AccountId(hotkey.0),
                    },
                ),
            ),
    {
        dispatch_subtensor(
            handle,
            SubtensorCall::UnstakeAll {
                hotkey: hotkey.account(),
            },
        )
    }

    /// Unstakes all alpha from a hotkey.
    pub fn unstake_all_alpha(
        &self,
        handle: &Handle,
        hotkey: H256,
    ) -> (result: EvmResult<Dispatch>)
        ensures
            answered(
                result,
                subtensor(
                    handle.caller,
                    SubtensorCall::UnstakeAllAlpha {
                        hotkey: AccountId(hotkey.0),
                    },
                ),
            ),
    {
        dispatch_subtensor(
            handle,
            SubtensorCall::UnstakeAllAlpha {
                hotkey: hotkey.account(),
            },
        )
    }

    /// Moves stake on a hotkey to another subnet.
    pub fn swap_stake(
        &self,
        handle: &Handle,
        hotkey: H256,
        origin_netuid: u16,
        destination_netuid: u16,
        alpha_amount: u64,
    ) -> (result: EvmResult<Dispatch>)
        ensures
            answered(
                result,
                subtensor(
                    handle.caller,
                    SubtensorCall::SwapStake {
                        hotkey: AccountId(hotkey.0),
                        origin_netuid,
                        destination_netuid,
                        alpha_amount,
                    },
                ),
            ),
    {
        dispatch_subtensor(
            handle,
            SubtensorCall::SwapStake {
                hotkey: hotkey.account(),
                origin_netuid,
                destination_netuid,
                alpha_amount,
            },
        )
    }

    /// Moves stake on a hotkey to another subnet within a price limit.
    pub fn swap_stake_limit(
        &self,
        handle: &Handle,
        hotkey: H256,
        origin_netuid: u16,
        destination_netuid: u16,
        alpha_amount: u64,
        limit_price: u64,
        allow_partial: bool,
    ) -> (result: EvmResult<Dispatch>)
        ensures
            answered(
                result,
                subtensor(
                    handle.caller,
                    SubtensorCall::SwapStakeLimit {
                        hotkey: AccountId(hotkey.0),
                        origin_netuid,
                        destination_netuid,
                        alpha_amount,
                        limit_price,
                        allow_partial,
                    },
                ),
            ),
    {
        dispatch_subtensor(
            handle,
            SubtensorCall::SwapStakeLimit {
                hotkey: hotkey.account(),
                origin_netuid,
                destination_netuid,
                alpha_amount,
                limit_price,
                allow_partial,
            },
        )
    }

    /// Moves stake to another hotkey within a price limit.
    pub fn move_stake_limit(
        &self,
        handle: &Handle,
        origin_hotkey: H256,
        destination_hotkey: H256,
        origin_netuid: u16,
        destination_netuid: u16,
        alpha_amount: u64,
        limit_price: u64,
        allow_partial: bool,
    ) -> (result: EvmResult<Dispatch>)
        ensures
            answered(
                result,
                subtensor(
                    handle.caller,
                    SubtensorCall::MoveStakeLimit {
                        origin_hotkey: AccountId(origin_hotkey.0),
                        destination_hotkey: AccountId(destination_hotkey.0),
                        origin_netuid,
                        destination_netuid,
                        alpha_amount,
                        limit_price,
                        allow_partial,
                    },
                ),
            ),
    {
        dispatch_subtensor(
            handle,
            SubtensorCall::MoveStakeLimit {
                origin_hotkey: origin_hotkey.account(),
                destination_hotkey: destination_hotkey.account(),
                origin_netuid,
                destination_netuid,
                alpha_amount,
                limit_price,
                allow_partial,
            },
        )
    }

    /// Recycles staked alpha.
    pub fn recycle_alpha(
        &self,
        handle: &Handle,
        hotkey: H256,
        amount: u64,
        netuid: u16,
    ) -> (result: EvmResult<Dispatch>)
        ensures
            answered(
                result,
                subtensor(
                    handle.caller,
                    SubtensorCall::RecycleAlpha {
                        hotkey: AccountId(hotkey.0),
                        amount,
                        netuid,
                    },
                ),
            ),
    {
        dispatch_subtensor(
            handle,
            SubtensorCall::RecycleAlpha {
                hotkey: hotkey.account(),
                amount,
                netuid,
            },
        )
    }

    /// Stakes and burns what was staked, within a limit where there is one.
    pub fn add_stake_burn(
        &self,
        handle: &Handle,
        hotkey: H256,
        netuid: u16,
        amount: u64,
        has_limit: bool,
        limit: u64,
    ) -> (result: EvmResult<Dispatch>)
        ensures
            answered(
                result,
                subtensor(
                    handle.caller,
                    SubtensorCall::AddStakeBurn {
                        hotkey: AccountId(hotkey.0),
                        netuid,
                        amount,
                        limit: if has_limit {
                            Some(limit)
                        } else {
                            None
                        },
                    },
                ),
            ),
    {
        dispatch_subtensor(
            handle,
            SubtensorCall::AddStakeBurn {
                hotkey: hotkey.account(),
                netuid,
                amount,
                limit: if has_limit {
                    Some(limit)
                } else {
                    None
                },
            },
        )
    }

    /// Transfers stake to another coldkey and another hotkey.
    pub fn transfer_stake_and_hotkey(
        &self,
        handle: &Handle,
        destination_coldkey: H256,
        origin_hotkey: H256,
        destination_hotkey: H256,
        origin_netuid: u16,
        destination_netuid: u16,
        alpha_amount: u64,
    ) -> (result: EvmResult<Dispatch>)
        ensures
            answered(
                result,
                subtensor(
                    handle.caller,
                    SubtensorCall::TransferStakeAndHotkey {
                        destination_coldkey: AccountId(destination_coldkey.0),
                        origin_hotkey: AccountId(origin_hotkey.0),
                        destination_hotkey: AccountId(destination_hotkey.0),
                        origin_netuid,
                        destination_netuid,
                        alpha_amount,
                    },
                ),
            ),
    {
        dispatch_subtensor(
            handle,
            SubtensorCall::TransferStakeAndHotkey {
                destination_coldkey: destination_coldkey.account(),
                origin_hotkey: origin_hotkey.account(),
                destination_hotkey: destination_hotkey.account(),
                origin_netuid,
                destination_netuid,
                alpha_amount,
            },
        )
    }
}

} // verus!
