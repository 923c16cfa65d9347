//! The calls that change locks, proxies, takes, claims and collateral.
use crate::precompile::call::{
    admin, dispatch_proxy, dispatch_staking_admin, dispatch_subtensor, proxy, subtensor, AdminCall,
    Dispatch, ProxyCall, ProxyType, RuntimeCall, SubtensorCall,
};
use crate::precompile::convert::{as_u16, as_u64, try_u16_from_u256, try_u64_from_u256};
use crate::precompile::failure::{answered, failed, revert, reverted, EvmResult};
use crate::precompile::handle::Handle;
use crate::precompile::runtime::Runtime;
use crate::precompile::staking_v2::StakingPrecompileV2;
use crate::primitives::{AccountId, H256};
use crate::u256::U256;
use std::collections::BTreeSet;
use vstd::prelude::*;

verus! {

/// The most subnets that one call may claim root emission for.
pub const MAX_CLAIMED_SUBNETS: usize = 5;

impl<R: Runtime> StakingPrecompileV2<R> {
    /// Locks staked alpha, to build conviction for a hotkey. The amount must fit a `u64`.
    pub fn lock_stake(
        &self,
        handle: &Handle,
        hotkey: H256,
        amount_alpha: U256,
        netuid: U256,
    ) -> (result: EvmResult<Dispatch>)
        ensures
            match as_u16(netuid@) {
                Err(failure) => failed(result, failure),
                Ok(subnet) => match as_u64(amount_alpha@) {
                    Err(failure) => failed(result, failure),
                    Ok(amount) => answered(
                        result,
                        subtensor(
                            handle.caller,
                            SubtensorCall::LockStake {
                                hotkey: AccountId(hotkey.0),
                                netuid: subnet,
                                amount,
                            },
                        ),
                    ),
                },
            },
    {
        let subnet = try_u16_from_u256(netuid)?;
        let amount = try_u64_from_u256(amount_alpha)?;
        dispatch_subtensor(
            handle,
            SubtensorCall::LockStake {
                hotkey: hotkey.account(),
                netuid: subnet,
                amount,
            },
        )
    }

    /// Points the caller's lock on a subnet to another hotkey.
    pub fn move_lock(
        &self,
        handle: &Handle,
        destination_hotkey: H256,
        netuid: U256,
    ) -> (result: EvmResult<Dispatch>)
        ensures
            match as_u16(netuid@) {
                Err(failure) => failed(result, failure),
                Ok(subnet) => answered(
                    result,
                    subtensor(
                        handle.caller,
                        SubtensorCall::MoveLock {
                            destination_hotkey: AccountId(destination_hotkey.0),
                            netuid: subnet,
                        },
                    ),
                ),
            },
    {
        let subnet = try_u16_from_u256(netuid)?;
        dispatch_subtensor(
            handle,
            SubtensorCall::MoveLock {
                destination_hotkey: destination_hotkey.account(),
                netuid: subnet,
            },
        )
    }

    /// Chooses whether the caller's lock on a subnet is perpetual or decays.
    pub fn set_perpetual_lock(
        &self,
        handle: &Handle,
        netuid: U256,
        enabled: bool,
    ) -> (result: EvmResult<Dispatch>)
        ensures
            match as_u16(netuid@) {
                Err(failure) => failed(result, failure),
                Ok(subnet) => answered(
                    result,
                    subtensor(
                        handle.caller,
                        SubtensorCall::SetPerpetualLock {
                            netuid: subnet,
                            enabled,
                        },
                    ),
                ),
            },
    {
        let subnet = try_u16_from_u256(netuid)?;
        dispatch_subtensor(
            handle,
            SubtensorCall::SetPerpetualLock {
                netuid: subnet,
                enabled,
            },
        )
    }

    /// Chooses whether the caller refuses stake that carries a lock.
    pub fn set_reject_locked_alpha(
        &self,
        handle: &Handle,
        enabled: bool,
    ) -> (result: EvmResult<Dispatch>)
        ensures
            answered(
                result,
                subtensor(
                    handle.caller,
                    SubtensorCall::SetRejectLockedAlpha {
                        enabled,
                    },
                ),
            ),
    {
        dispatch_subtensor(
            handle,
            SubtensorCall::SetRejectLockedAlpha {
                enabled,
            },
        )
    }

    /// Lets `delegate` stake for the caller.
    pub fn add_proxy(
        &self,
        handle: &Handle,
        delegate: H256,
    ) -> (result: EvmResult<Dispatch>)
        ensures
            answered(
                result,
                proxy(
                    handle.caller,
                    ProxyCall::AddProxy {
                        delegate: AccountId(delegate.0),
                        proxy_type: ProxyType::Staking,
                        delay: 0,
                    },
                ),
            ),
    {
        dispatch_proxy(
            handle,
            ProxyCall::AddProxy {
                delegate: delegate.account(),
                proxy_type: ProxyType::Staking,
                delay: 0,
            },
        )
    }

    /// Lets `delegate` stake for the caller no more.
    pub fn remove_proxy(
        &self,
        handle: &Handle,
        delegate: H256,
    ) -> (result: EvmResult<Dispatch>)
        ensures
            answered(
                result,
                proxy(
                    handle.caller,
                    ProxyCall::RemoveProxy {
                        delegate: AccountId(delegate.0),
                        proxy_type: ProxyType::Staking,
                        delay: 0,
                    },
                ),
            ),
    {
        dispatch_proxy(
            handle,
            ProxyCall::RemoveProxy {
                delegate: delegate.account(),
                proxy_type: ProxyType::Staking,
                delay: 0,
            },
        )
    }

    /// Lowers the take of a delegate.
    pub fn decrease_take(
        &self,
        handle: &Handle,
        hotkey: H256,
        take: u16,
    ) -> (result: EvmResult<Dispatch>)
        ensures
            answered(
                result,
                subtensor(
                    handle.caller,
                    SubtensorCall::DecreaseTake {
                        hotkey: AccountId(hotkey.0),
                        take,
                    },
                ),
            ),
    {
        dispatch_subtensor(
            handle,
            SubtensorCall::DecreaseTake {
                hotkey: hotkey.account(),
                take,
            },
        )
    }

    /// Raises the take of a delegate.
    pub fn increase_take(
        &self,
        handle: &Handle,
        hotkey: H256,
        take: u16,
    ) -> (result: EvmResult<Dispatch>)
        ensures
            answered(
                result,
                subtensor(
                    handle.caller,
                    SubtensorCall::IncreaseTake {
                        hotkey: AccountId(hotkey.0),
                        take,
                    },
                ),
            ),
    {
        dispatch_subtensor(
            handle,
            SubtensorCall::IncreaseTake {
                hotkey: hotkey.account(),
                take,
            },
        )
    }

    /// Sets the childkey take of a hotkey on a subnet.
    pub fn set_childkey_take(
        &self,
        handle: &Handle,
        hotkey: H256,
        netuid: u16,
        take: u16,
    ) -> (result: EvmResult<Dispatch>)
        ensures
            answered(
                result,
                subtensor(
                    handle.caller,
                    SubtensorCall::SetChildkeyTake {
                        hotkey: AccountId(hotkey.0),
                        netuid,
                        take,
                    },
                ),
            ),
    {
        dispatch_subtensor(
            handle,
            SubtensorCall::SetChildkeyTake {
                hotkey: hotkey.account(),
                netuid,
                take,
            },
        )
    }

    /// Chooses the hotkey that the caller stakes on by itself on a subnet.
    pub fn set_coldkey_auto_stake_hotkey(
        &self,
        handle: &Handle,
        netuid: u16,
        hotkey: H256,
    ) -> (result: EvmResult<Dispatch>)
        ensures
            answered(
                result,
                subtensor(
                    handle.caller,
                    SubtensorCall::SetColdkeyAutoStakeHotkey {
                        netuid,
                        hotkey: AccountId(hotkey.0),
                    },
                ),
            ),
    {
        dispatch_subtensor(
            handle,
            SubtensorCall::SetColdkeyAutoStakeHotkey {
                netuid,
                hotkey: hotkey.account(),
            },
        )
    }

    /// Claims what one validator's basket owes the caller.
    pub fn claim_root_with_hotkey(
        &self,
        handle: &Handle,
        hotkey: H256,
    ) -> (result: EvmResult<Dispatch>)
        ensures
            answered(
                result,
                subtensor(
                    handle.caller,
                    SubtensorCall::ClaimRootWithHotkey {
                        hotkey: AccountId(hotkey.0),
                    },
                ),
            ),
    {
        dispatch_subtensor(
            handle,
            SubtensorCall::ClaimRootWithHotkey {
                hotkey: hotkey.account(),
            },
        )
    }

    /// Sets the threshold of root claims on a subnet.
    pub fn set_root_claim_threshold(
        &self,
        handle: &Handle,
        netuid: u16,
        new_value: u64,
    ) -> (result: EvmResult<Dispatch>)
        ensures
            answered(
                result,
                subtensor(
                    handle.caller,
                    SubtensorCall::SudoSetRootClaimThreshold {
                        netuid,
                        new_value,
                    },
                ),
            ),
    {
        dispatch_subtensor(
            handle,
            SubtensorCall::SudoSetRootClaimThreshold {
                netuid,
                new_value,
            },
        )
    }

    /// Turns delegation to a hotkey's parent on or off.
    pub fn set_auto_parent_delegation_enabled(
        &self,
        handle: &Handle,
        hotkey: H256,
        enabled: bool,
    ) -> (result: EvmResult<Dispatch>)
        ensures
            answered(
                result,
                subtensor(
                    handle.caller,
                    SubtensorCall::SetAutoParentDelegationEnabled {
                        hotkey: AccountId(hotkey.0),
                        enabled,
                    },
                ),
            ),
    {
        dispatch_subtensor(
            handle,
            SubtensorCall::SetAutoParentDelegationEnabled {
                hotkey: hotkey.account(),
                enabled,
            },
        )
    }

    /// Adds collateral for a miner within a price limit.
    pub fn add_collateral(
        &self,
        handle: &Handle,
        netuid: u16,
        hotkey: H256,
        alpha: u64,
        limit_price: u64,
    ) -> (result: EvmResult<Dispatch>)
        ensures
            answered(
                result,
                subtensor(
                    handle.caller,
                    SubtensorCall::AddCollateral {
                        netuid,
                        hotkey: AccountId(hotkey.0),
                        alpha,
                        limit_price,
                    },
                ),
            ),
    {
        dispatch_subtensor(
            handle,
            SubtensorCall::AddCollateral {
                netuid,
                hotkey: hotkey.account(),
                alpha,
                limit_price,
            },
        )
    }

    /// Sets the collateral below which a miner's may not fall.
    pub fn set_min_collateral(
        &self,
        handle: &Handle,
        netuid: u16,
        hotkey: H256,
        min_locked: u64,
    ) -> (result: EvmResult<Dispatch>)
        ensures
            answered(
                result,
                subtensor(
                    handle.caller,
                    SubtensorCall::SetMinCollateral {
                        netuid,
                        hotkey: AccountId(hotkey.0),
                        min_locked,
                    },
                ),
            ),
    {
        dispatch_subtensor(
            handle,
            SubtensorCall::SetMinCollateral {
                netuid,
                hotkey: hotkey.account(),
                min_locked,
            },
        )
    }

    /// Sets the least childkey take on a subnet.
    pub fn set_min_childkey_take_per_subnet(
        &self,
        handle: &Handle,
        netuid: u16,
        take: u16,
    ) -> (result: EvmResult<Dispatch>)
        ensures
            answered(
                result,
                admin(
                    handle.caller,
                    AdminCall::SudoSetMinChildkeyTakePerSubnet {
                        netuid,
                        take,
                    },
                ),
            ),
    {
        dispatch_staking_admin(
            handle,
            AdminCall::SudoSetMinChildkeyTakePerSubnet {
                netuid,
                take,
            },
        )
    }

    /// Sets the lock share of collateral on a subnet.
    pub fn set_collateral_lock_share(
        &self,
        handle: &Handle,
        netuid: u16,
        lock_share: u16,
    ) -> (result: EvmResult<Dispatch>)
        ensures
            answered(
                result,
                admin(
                    handle.caller,
                    AdminCall::SudoSetCollateralLockShare {
                        netuid,
                        lock_share,
                    },
                ),
            ),
    {
        dispatch_staking_admin(
            handle,
            AdminCall::SudoSetCollateralLockShare {
                netuid,
                lock_share,
            },
        )
    }

    /// Sets the drain ratio of collateral on a subnet, from its bits.
    pub fn set_collateral_drain_ratio(
        &self,
        handle: &Handle,
        netuid: u16,
        raw_ratio: u128,
    ) -> (result: EvmResult<Dispatch>)
        ensures
            answered(
                result,
                admin(
                    handle.caller,
                    AdminCall::SudoSetCollateralDrainRatio {
                        netuid,
                        drain_ratio: raw_ratio,
                    },
                ),
            ),
    {
        dispatch_staking_admin(
            handle,
            AdminCall::SudoSetCollateralDrainRatio {
                netuid,
                drain_ratio: raw_ratio,
            },
        )
    }

    /// Claims what validators' baskets owe the caller for the subnets given, each once.
    pub fn claim_root(&self, handle: &Handle, subnets: Vec<u16>) -> (result: EvmResult<Dispatch>)
        ensures
            if subnets@.len() > MAX_CLAIMED_SUBNETS {
                failed(result, reverted("subnets: Value is too large for length"))
            } else {
                &&& result matches Ok(dispatch)
                &&& dispatch.signer == handle.caller
                &&& dispatch.call matches RuntimeCall::Subtensor(call)
                &&& call matches SubtensorCall::ClaimRoot { subnets: claimed }
                &&& claimed@ == subnets@.to_set()
            },
    {
        if subnets.len() > MAX_CLAIMED_SUBNETS {
            return Err(revert("subnets: Value is too large for length"));
        }
        let mut claimed: BTreeSet<u16> = BTreeSet::new();
        let mut i: usize = 0;
        while i < subnets.len()
            invariant
                i <= subnets@.len(),
                claimed@ == subnets@.take(i as int).to_set(),
            decreases subnets@.len() - i,
        {
            let netuid: u16 = subnets[i];
            claimed.insert(netuid);
            proof {
                let shorter = subnets@.take(i as int);
                assert(subnets@.take(i + 1) =~= shorter.push(netuid));
                assert(shorter.push(netuid).to_set() =~= shorter.to_set().insert(netuid)) by {
                    assert forall|n: u16|
                        shorter.push(netuid).contains(n) == (shorter.contains(n) || n
                            == netuid) by {
                        if n == netuid {
                            assert(shorter.push(netuid)[i as int] == n);
                        }
                        if shorter.contains(n) {
                            let k = choose|k: int| 0 <= k < shorter.len() && shorter[k] == n;
                            assert(shorter.push(netuid)[k] == n);
                        }
                    }
                }
            }
            i = i + 1;
        }
        assert(subnets@.take(i as int) =~= subnets@);
        dispatch_subtensor(handle, SubtensorCall::ClaimRoot { subnets: claimed })
    }
}

} // verus!
