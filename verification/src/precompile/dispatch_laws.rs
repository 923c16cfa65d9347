//! What each entry point that asks for a runtime call asks for, field by field.
use crate::precompile::call::{
    dispatch_proxy, dispatch_staking_admin, dispatch_subtensor, Account, AdminCall, Dispatch,
    ProxyCall, ProxyType, RuntimeCall, SubtensorCall,
};
use crate::precompile::failure::{EvmResult, ExitError, PrecompileFailure};
use crate::precompile::handle::Handle;
use crate::precompile::runtime::Runtime;
use crate::precompile::staking_v1::StakingPrecompile;
use crate::precompile::staking_v2::StakingPrecompileV2;
use crate::primitives::{AccountId, H256};
use crate::u256::U256;
use vstd::prelude::*;

verus! {

/// Whether a call was stopped for the given reason.
pub open spec fn stopped<T>(result: EvmResult<T>, reason: &'static str) -> bool {
    result == Err::<T, PrecompileFailure>(
        PrecompileFailure::Error { exit_status: ExitError::Other(reason) },
    )
}

/// Whether a call was reverted with the given message.
pub open spec fn reverts<T>(result: EvmResult<T>, message: &'static str) -> bool {
    result == Err::<T, PrecompileFailure>(PrecompileFailure::Revert { output: message })
}

/// A subtensor call is asked for as it stands, in the name of the caller.
pub proof fn law_dispatch_subtensor(handle: Handle, call: SubtensorCall, result: EvmResult<Dispatch>)
    requires
        call_ensures(dispatch_subtensor, (&handle, call), result),
    ensures
        result == Ok::<Dispatch, PrecompileFailure>(
            Dispatch { signer: handle.caller, call: RuntimeCall::Subtensor(call) },
        ),
{
}

/// An admin call is asked for as it stands, in the name of the caller.
pub proof fn law_dispatch_staking_admin(handle: Handle, call: AdminCall, result: EvmResult<Dispatch>)
    requires
        call_ensures(dispatch_staking_admin, (&handle, call), result),
    ensures
        result == Ok::<Dispatch, PrecompileFailure>(
            Dispatch { signer: handle.caller, call: RuntimeCall::AdminUtils(call) },
        ),
{
}

/// A proxy call is asked for as it stands, in the name of the caller.
pub proof fn law_dispatch_proxy(handle: Handle, call: ProxyCall, result: EvmResult<Dispatch>)
    requires
        call_ensures(dispatch_proxy, (&handle, call), result),
    ensures
        result == Ok::<Dispatch, PrecompileFailure>(
            Dispatch { signer: handle.caller, call: RuntimeCall::Proxy(call) },
        ),
{
}

/// Adding stake asks, in the name of the caller, for the stake on the given hotkey and subnet, of
/// the amount as far as a `u64` holds it.
pub proof fn law_add_stake<R: Runtime>(
    precompile: StakingPrecompileV2<R>,
    handle: Handle,
    address: H256,
    amount_rao: U256,
    netuid: U256,
    result: EvmResult<Dispatch>,
)
    requires
        call_ensures(
            StakingPrecompileV2::<R>::add_stake,
            (&precompile, &handle, address, amount_rao, netuid),
            result,
        ),
    ensures
        if netuid@ > 0xffff {
            stopped(result, "the value is outside of u16 bounds")
        } else {
            result == Ok::<Dispatch, PrecompileFailure>(
                Dispatch {
                    signer: handle.caller,
                    call: RuntimeCall::Subtensor(
                        SubtensorCall::AddStake {
                            hotkey: AccountId(address.0),
                            netuid: netuid@ as u16,
                            amount_staked: if amount_rao@ > 0xffff_ffff_ffff_ffff {
                                0xffff_ffff_ffff_ffff
                            } else {
                                amount_rao@ as u64
                            },
                        },
                    ),
                },
            )
        },
{
}

/// Removing stake asks, in the name of the caller, for taking it off the given hotkey and subnet,
/// of the amount as far as a `u64` holds it.
pub proof fn law_remove_stake<R: Runtime>(
    precompile: StakingPrecompileV2<R>,
    handle: Handle,
    address: H256,
    amount_alpha: U256,
    netuid: U256,
    result: EvmResult<Dispatch>,
)
    requires
        call_ensures(
            StakingPrecompileV2::<R>::remove_stake,
            (&precompile, &handle, address, amount_alpha, netuid),
            result,
        ),
    ensures
        if netuid@ > 0xffff {
            stopped(result, "the value is outside of u16 bounds")
        } else {
            result == Ok::<Dispatch, PrecompileFailure>(
                Dispatch {
                    signer: handle.caller,
                    call: RuntimeCall::Subtensor(
                        SubtensorCall::RemoveStake {
                            hotkey: AccountId(address.0),
                            netuid: netuid@ as u16,
                            amount_unstaked: if amount_alpha@ > 0xffff_ffff_ffff_ffff {
                                0xffff_ffff_ffff_ffff
                            } else {
                                amount_alpha@ as u64
                            },
                        },
                    ),
                },
            )
        },
{
}

/// Removing all stake passes a price limit on as it was given, or none.
pub proof fn law_call_remove_stake_full_limit<R: Runtime>(
    precompile: StakingPrecompileV2<R>,
    handle: Handle,
    hotkey: H256,
    netuid: U256,
    limit_price: Option<u64>,
    result: EvmResult<Dispatch>,
)
    requires
        call_ensures(
            StakingPrecompileV2::<R>::call_remove_stake_full_limit,
            (&precompile, &handle, hotkey, netuid, limit_price),
            result,
        ),
    ensures
        if netuid@ > 0xffff {
            stopped(result, "the value is outside of u16 bounds")
        } else {
            result == Ok::<Dispatch, PrecompileFailure>(
                Dispatch {
                    signer: handle.caller,
                    call: RuntimeCall::Subtensor(
                        SubtensorCall::RemoveStakeFullLimit {
                            hotkey: AccountId(hotkey.0),
                            netuid: netuid@ as u16,
                            limit_price,
                        },
                    ),
                },
            )
        },
{
}

/// Removing all stake without a price limit sets none.
pub proof fn law_remove_stake_full<R: Runtime>(
    precompile: StakingPrecompileV2<R>,
    handle: Handle,
    hotkey: H256,
    netuid: U256,
    result: EvmResult<Dispatch>,
)
    requires
        call_ensures(
            StakingPrecompileV2::<R>::remove_stake_full,
            (&precompile, &handle, hotkey, netuid),
            result,
        ),
    ensures
        if netuid@ > 0xffff {
            stopped(result, "the value is outside of u16 bounds")
        } else {
            result == Ok::<Dispatch, PrecompileFailure>(
                Dispatch {
                    signer: handle.caller,
                    call: RuntimeCall::Subtensor(
                        SubtensorCall::RemoveStakeFullLimit {
                            hotkey: AccountId(hotkey.0),
                            netuid: netuid@ as u16,
                            limit_price: None,
                        },
                    ),
                },
            )
        },
{
}

/// Removing all stake with a price limit sets exactly that limit; one that no `u64` holds is
/// refused, and not cut off.
pub proof fn law_remove_stake_full_limit<R: Runtime>(
    precompile: StakingPrecompileV2<R>,
    handle: Handle,
    hotkey: H256,
    netuid: U256,
    limit_price: U256,
    result: EvmResult<Dispatch>,
)
    requires
        call_ensures(
            StakingPrecompileV2::<R>::remove_stake_full_limit,
            (&precompile, &handle, hotkey, netuid, limit_price),
            result,
        ),
    ensures
        if limit_price@ > 0xffff_ffff_ffff_ffff {
            stopped(result, "the value is outside of u64 bounds")
        } else if netuid@ > 0xffff {
            stopped(result, "the value is outside of u16 bounds")
        } else {
            result == Ok::<Dispatch, PrecompileFailure>(
                Dispatch {
                    signer: handle.caller,
                    call: RuntimeCall::Subtensor(
                        SubtensorCall::RemoveStakeFullLimit {
                            hotkey: AccountId(hotkey.0),
                            netuid: netuid@ as u16,
                            limit_price: Some(limit_price@ as u64),
                        },
                    ),
                },
            )
        },
{
}

/// Moving stake goes from the origin hotkey and subnet to the destination ones, and not the other
/// way.
pub proof fn law_move_stake<R: Runtime>(
    precompile: StakingPrecompileV2<R>,
    handle: Handle,
    origin_hotkey: H256,
    destination_hotkey: H256,
    origin_netuid: U256,
    destination_netuid: U256,
    amount_alpha: U256,
    result: EvmResult<Dispatch>,
)
    requires
        call_ensures(
            StakingPrecompileV2::<R>::move_stake,
            (
                &precompile,
                &handle,
                origin_hotkey,
                destination_hotkey,
                origin_netuid,
                destination_netuid,
                amount_alpha,
            ),
            result,
        ),
    ensures
        if origin_netuid@ > 0xffff {
            stopped(result, "the value is outside of u16 bounds")
        } else if destination_netuid@ > 0xffff {
            stopped(result, "the value is outside of u16 bounds")
        } else {
            result == Ok::<Dispatch, PrecompileFailure>(
                Dispatch {
                    signer: handle.caller,
                    call: RuntimeCall::Subtensor(
                        SubtensorCall::MoveStake {
                            origin_hotkey: AccountId(origin_hotkey.0),
                            destination_hotkey: AccountId(destination_hotkey.0),
                            origin_netuid: origin_netuid@ as u16,
                            destination_netuid: destination_netuid@ as u16,
                            alpha_amount: if amount_alpha@ > 0xffff_ffff_ffff_ffff {
                                0xffff_ffff_ffff_ffff
                            } else {
                                amount_alpha@ as u64
                            },
                        },
                    ),
                },
            )
        },
{
}

/// Transferring stake gives it to the given coldkey, from the origin subnet to the destination
/// one.
pub proof fn law_transfer_stake<R: Runtime>(
    precompile: StakingPrecompileV2<R>,
    handle: Handle,
    destination_coldkey: H256,
    hotkey: H256,
    origin_netuid: U256,
    destination_netuid: U256,
    amount_alpha: U256,
    result: EvmResult<Dispatch>,
)
    requires
        call_ensures(
            StakingPrecompileV2::<R>::transfer_stake,
            (
                &precompile,
                &handle,
                destination_coldkey,
                hotkey,
                origin_netuid,
                destination_netuid,
                amount_alpha,
            ),
            result,
        ),
    ensures
        if origin_netuid@ > 0xffff {
            stopped(result, "the value is outside of u16 bounds")
        } else if destination_netuid@ > 0xffff {
            stopped(result, "the value is outside of u16 bounds")
        } else {
            result == Ok::<Dispatch, PrecompileFailure>(
                Dispatch {
                    signer: handle.caller,
                    call: RuntimeCall::Subtensor(
                        SubtensorCall::TransferStake {
                            destination_coldkey: Account::Native(AccountId(destination_coldkey.0)),
                            hotkey: AccountId(hotkey.0),
                            origin_netuid: origin_netuid@ as u16,
                            destination_netuid: destination_netuid@ as u16,
                            alpha_amount: if amount_alpha@ > 0xffff_ffff_ffff_ffff {
                                0xffff_ffff_ffff_ffff
                            } else {
                                amount_alpha@ as u64
                            },
                        },
                    ),
                },
            )
        },
{
}

/// Burning alpha asks for the given amount as far as a `u64` holds it.
pub proof fn law_burn_alpha<R: Runtime>(
    precompile: StakingPrecompileV2<R>,
    handle: Handle,
    hotkey: H256,
    amount: U256,
    netuid: U256,
    result: EvmResult<Dispatch>,
)
    requires
        call_ensures(
            StakingPrecompileV2::<R>::burn_alpha,
            (&precompile, &handle, hotkey, amount, netuid),
            result,
        ),
    ensures
        if netuid@ > 0xffff {
            stopped(result, "the value is outside of u16 bounds")
        } else {
            result == Ok::<Dispatch, PrecompileFailure>(
                Dispatch {
                    signer: handle.caller,
                    call: RuntimeCall::Subtensor(
                        SubtensorCall::BurnAlpha {
                            hotkey: AccountId(hotkey.0),
                            amount: if amount@ > 0xffff_ffff_ffff_ffff {
                                0xffff_ffff_ffff_ffff
                            } else {
                                amount@ as u64
                            },
                            netuid: netuid@ as u16,
                        },
                    ),
                },
            )
        },
{
}

/// Adding stake with a price limit passes on the limit and whether a part will do.
pub proof fn law_add_stake_limit<R: Runtime>(
    precompile: StakingPrecompileV2<R>,
    handle: Handle,
    address: H256,
    amount_rao: U256,
    limit_price_rao: U256,
    allow_partial: bool,
    netuid: U256,
    result: EvmResult<Dispatch>,
)
    requires
        call_ensures(
            StakingPrecompileV2::<R>::add_stake_limit,
            (&precompile, &handle, address, amount_rao, limit_price_rao, allow_partial, netuid),
            result,
        ),
    ensures
        if netuid@ > 0xffff {
            stopped(result, "the value is outside of u16 bounds")
        } else {
            result == Ok::<Dispatch, PrecompileFailure>(
                Dispatch {
                    signer: handle.caller,
                    call: RuntimeCall::Subtensor(
                        SubtensorCall::AddStakeLimit {
                            hotkey: AccountId(address.0),
                            netuid: netuid@ as u16,
                            amount_staked: if amount_rao@ > 0xffff_ffff_ffff_ffff {
                                0xffff_ffff_ffff_ffff
                            } else {
                                amount_rao@ as u64
                            },
                            limit_price: if limit_price_rao@ > 0xffff_ffff_ffff_ffff {
                                0xffff_ffff_ffff_ffff
                            } else {
                                limit_price_rao@ as u64
                            },
                            allow_partial,
                        },
                    ),
                },
            )
        },
{
}

/// Removing stake with a price limit passes on the limit and whether a part will do.
pub proof fn law_remove_stake_limit<R: Runtime>(
    precompile: StakingPrecompileV2<R>,
    handle: Handle,
    address: H256,
    amount_alpha: U256,
    limit_price_rao: U256,
    allow_partial: bool,
    netuid: U256,
    result: EvmResult<Dispatch>,
)
    requires
        call_ensures(
            StakingPrecompileV2::<R>::remove_stake_limit,
            (&precompile, &handle, address, amount_alpha, limit_price_rao, allow_partial, netuid),
            result,
        ),
    ensures
        if netuid@ > 0xffff {
            stopped(result, "the value is outside of u16 bounds")
        } else {
            result == Ok::<Dispatch, PrecompileFailure>(
                Dispatch {
                    signer: handle.caller,
                    call: RuntimeCall::Subtensor(
                        SubtensorCall::RemoveStakeLimit {
                            hotkey: AccountId(address.0),
                            netuid: netuid@ as u16,
                            amount_unstaked: if amount_alpha@ > 0xffff_ffff_ffff_ffff {
                                0xffff_ffff_ffff_ffff
                            } else {
                                amount_alpha@ as u64
                            },
                            limit_price: if limit_price_rao@ > 0xffff_ffff_ffff_ffff {
                                0xffff_ffff_ffff_ffff
                            } else {
                                limit_price_rao@ as u64
                            },
                            allow_partial,
                        },
                    ),
                },
            )
        },
{
}

/// Unstaking all names the hotkey.
pub proof fn law_unstake_all<R: Runtime>(
    precompile: StakingPrecompileV2<R>,
    handle: Handle,
    hotkey: H256,
    result: EvmResult<Dispatch>,
)
    requires
        call_ensures(
            StakingPrecompileV2::<R>::unstake_all,
            (&precompile, &handle, hotkey),
            result,
        ),
    ensures
        result == Ok::<Dispatch, PrecompileFailure>(
            Dispatch {
                signer: handle.caller,
                call: RuntimeCall::Subtensor(
                    SubtensorCall::UnstakeAll {
                        hotkey: AccountId(hotkey.0),
                    },
                ),
            },
        ),
{
}

/// Unstaking all alpha names the hotkey.
pub proof fn law_unstake_all_alpha<R: Runtime>(
    precompile: StakingPrecompileV2<R>,
    handle: Handle,
    hotkey: H256,
    result: EvmResult<Dispatch>,
)
    requires
        call_ensures(
            StakingPrecompileV2::<R>::unstake_all_alpha,
            (&precompile, &handle, hotkey),
            result,
        ),
    ensures
        result == Ok::<Dispatch, PrecompileFailure>(
            Dispatch {
                signer: handle.caller,
                call: RuntimeCall::Subtensor(
                    SubtensorCall::UnstakeAllAlpha {
                        hotkey: AccountId(hotkey.0),
                    },
                ),
            },
        ),
{
}

/// Swapping stake goes from the origin subnet to the destination one.
pub proof fn law_swap_stake<R: Runtime>(
    precompile: StakingPrecompileV2<R>,
    handle: Handle,
    hotkey: H256,
    origin_netuid: u16,
    destination_netuid: u16,
    alpha_amount: u64,
    result: EvmResult<Dispatch>,
)
    requires
        call_ensures(
            StakingPrecompileV2::<R>::swap_stake,
            (&precompile, &handle, hotkey, origin_netuid, destination_netuid, alpha_amount),
            result,
        ),
    ensures
        result == Ok::<Dispatch, PrecompileFailure>(
            Dispatch {
                signer: handle.caller,
                call: RuntimeCall::Subtensor(
                    SubtensorCall::SwapStake {
                        hotkey: AccountId(hotkey.0),
                        origin_netuid,
                        destination_netuid,
                        alpha_amount,
                    },
                ),
            },
        ),
{
}

/// Swapping stake with a price limit passes on the limit and whether a part will do.
pub proof fn law_swap_stake_limit<R: Runtime>(
    precompile: StakingPrecompileV2<R>,
    handle: Handle,
    hotkey: H256,
    origin_netuid: u16,
    destination_netuid: u16,
    alpha_amount: u64,
    limit_price: u64,
    allow_partial: bool,
    result: EvmResult<Dispatch>,
)
    requires
        call_ensures(
            StakingPrecompileV2::<R>::swap_stake_limit,
            (
                &precompile,
                &handle,
                hotkey,
                origin_netuid,
                destination_netuid,
                alpha_amount,
                limit_price,
                allow_partial,
            ),
            result,
        ),
    ensures
        result == Ok::<Dispatch, PrecompileFailure>(
            Dispatch {
                signer: handle.caller,
                call: RuntimeCall::Subtensor(
                    SubtensorCall::SwapStakeLimit {
                        hotkey: AccountId(hotkey.0),
                        origin_netuid,
                        destination_netuid,
                        alpha_amount,
                        limit_price,
                        allow_partial,
                    },
                ),
            },
        ),
{
}

/// Moving stake with a price limit passes on the limit and whether a part will do.
pub proof fn law_move_stake_limit<R: Runtime>(
    precompile: StakingPrecompileV2<R>,
    handle: Handle,
    origin_hotkey: H256,
    destination_hotkey: H256,
    origin_netuid: u16,
    destination_netuid: u16,
    alpha_amount: u64,
    limit_price: u64,
    allow_partial: bool,
    result: EvmResult<Dispatch>,
)
    requires
        call_ensures(
            StakingPrecompileV2::<R>::move_stake_limit,
            (
                &precompile,
                &handle,
                origin_hotkey,
                destination_hotkey,
                origin_netuid,
                destination_netuid,
                alpha_amount,
                limit_price,
                allow_partial,
            ),
            result,
        ),
    ensures
        result == Ok::<Dispatch, PrecompileFailure>(
            Dispatch {
                signer: handle.caller,
                call: RuntimeCall::Subtensor(
                    SubtensorCall::MoveStakeLimit {
                        origin_hotkey: AccountId(origin_hotkey.0),
                        destination_hotkey: AccountId(destination_hotkey.0),
                        origin_netuid,
                        destination_netuid,
                        alpha_amount,
                        limit_price,
                        allow_partial,
                    },
                ),
            },
        ),
{
}

/// Recycling alpha names the amount and the subnet.
pub proof fn law_recycle_alpha<R: Runtime>(
    precompile: StakingPrecompileV2<R>,
    handle: Handle,
    hotkey: H256,
    amount: u64,
    netuid: u16,
    result: EvmResult<Dispatch>,
)
    requires
        call_ensures(
            StakingPrecompileV2::<R>::recycle_alpha,
            (&precompile, &handle, hotkey, amount, netuid),
            result,
        ),
    ensures
        result == Ok::<Dispatch, PrecompileFailure>(
            Dispatch {
                signer: handle.caller,
                call: RuntimeCall::Subtensor(
                    SubtensorCall::RecycleAlpha {
                        hotkey: AccountId(hotkey.0),
                        amount,
                        netuid,
                    },
                ),
            },
        ),
{
}

/// Staking to burn sets a limit exactly where the caller has one.
pub proof fn law_add_stake_burn<R: Runtime>(
    precompile: StakingPrecompileV2<R>,
    handle: Handle,
    hotkey: H256,
    netuid: u16,
    amount: u64,
    has_limit: bool,
    limit: u64,
    result: EvmResult<Dispatch>,
)
    requires
        call_ensures(
            StakingPrecompileV2::<R>::add_stake_burn,
            (&precompile, &handle, hotkey, netuid, amount, has_limit, limit),
            result,
        ),
    ensures
        result == Ok::<Dispatch, PrecompileFailure>(
            Dispatch {
                signer: handle.caller,
                call: RuntimeCall::Subtensor(
                    SubtensorCall::AddStakeBurn {
                        hotkey: AccountId(hotkey.0),
                        netuid,
                        amount,
                        limit: if has_limit {
                            Some(limit)
                        } else {
                            None
                        },
                    },
                ),
            },
        ),
{
}

/// Transferring stake to another hotkey too keeps coldkey, hotkeys and subnets apart.
pub proof fn law_transfer_stake_and_hotkey<R: Runtime>(
    precompile: StakingPrecompileV2<R>,
    handle: Handle,
    destination_coldkey: H256,
    origin_hotkey: H256,
    destination_hotkey: H256,
    origin_netuid: u16,
    destination_netuid: u16,
    alpha_amount: u64,
    result: EvmResult<Dispatch>,
)
    requires
        call_ensures(
            StakingPrecompileV2::<R>::transfer_stake_and_hotkey,
            (
                &precompile,
                &handle,
                destination_coldkey,
                origin_hotkey,
                destination_hotkey,
                origin_netuid,
                destination_netuid,
                alpha_amount,
            ),
            result,
        ),
    ensures
        result == Ok::<Dispatch, PrecompileFailure>(
            Dispatch {
                signer: handle.caller,
                call: RuntimeCall::Subtensor(
                    SubtensorCall::TransferStakeAndHotkey {
                        destination_coldkey: AccountId(destination_coldkey.0),
                        origin_hotkey: AccountId(origin_hotkey.0),
                        destination_hotkey: AccountId(destination_hotkey.0),
                        origin_netuid,
                        destination_netuid,
                        alpha_amount,
                    },
                ),
            },
        ),
{
}

/// Locking stake asks for exactly the given amount; one that no `u64` holds is refused, and not
/// cut off.
pub proof fn law_lock_stake<R: Runtime>(
    precompile: StakingPrecompileV2<R>,
    handle: Handle,
    hotkey: H256,
    amount_alpha: U256,
    netuid: U256,
    result: EvmResult<Dispatch>,
)
    requires
        call_ensures(
            StakingPrecompileV2::<R>::lock_stake,
            (&precompile, &handle, hotkey, amount_alpha, netuid),
            result,
        ),
    ensures
        if netuid@ > 0xffff {
            stopped(result, "the value is outside of u16 bounds")
        } else if amount_alpha@ > 0xffff_ffff_ffff_ffff {
            stopped(result, "the value is outside of u64 bounds")
        } else {
            result == Ok::<Dispatch, PrecompileFailure>(
                Dispatch {
                    signer: handle.caller,
                    call: RuntimeCall::Subtensor(
                        SubtensorCall::LockStake {
                            hotkey: AccountId(hotkey.0),
                            netuid: netuid@ as u16,
                            amount: amount_alpha@ as u64,
                        },
                    ),
                },
            )
        },
{
}

/// Moving a lock names the hotkey that it moves to.
pub proof fn law_move_lock<R: Runtime>(
    precompile: StakingPrecompileV2<R>,
    handle: Handle,
    destination_hotkey: H256,
    netuid: U256,
    result: EvmResult<Dispatch>,
)
    requires
        call_ensures(
            StakingPrecompileV2::<R>::move_lock,
            (&precompile, &handle, destination_hotkey, netuid),
            result,
        ),
    ensures
        if netuid@ > 0xffff {
            stopped(result, "the value is outside of u16 bounds")
        } else {
            result == Ok::<Dispatch, PrecompileFailure>(
                Dispatch {
                    signer: handle.caller,
                    call: RuntimeCall::Subtensor(
                        SubtensorCall::MoveLock {
                            destination_hotkey: AccountId(destination_hotkey.0),
                            netuid: netuid@ as u16,
                        },
                    ),
                },
            )
        },
{
}

/// A lock is made perpetual, or no longer is, as asked.
pub proof fn law_set_perpetual_lock<R: Runtime>(
    precompile: StakingPrecompileV2<R>,
    handle: Handle,
    netuid: U256,
    enabled: bool,
    result: EvmResult<Dispatch>,
)
    requires
        call_ensures(
            StakingPrecompileV2::<R>::set_perpetual_lock,
            (&precompile, &handle, netuid, enabled),
            result,
        ),
    ensures
        if netuid@ > 0xffff {
            stopped(result, "the value is outside of u16 bounds")
        } else {
            result == Ok::<Dispatch, PrecompileFailure>(
                Dispatch {
                    signer: handle.caller,
                    call: RuntimeCall::Subtensor(
                        SubtensorCall::SetPerpetualLock {
                            netuid: netuid@ as u16,
                            enabled,
                        },
                    ),
                },
            )
        },
{
}

/// Stake that carries a lock is refused, or no longer is, as asked.
pub proof fn law_set_reject_locked_alpha<R: Runtime>(
    precompile: StakingPrecompileV2<R>,
    handle: Handle,
    enabled: bool,
    result: EvmResult<Dispatch>,
)
    requires
        call_ensures(
            StakingPrecompileV2::<R>::set_reject_locked_alpha,
            (&precompile, &handle, enabled),
            result,
        ),
    ensures
        result == Ok::<Dispatch, PrecompileFailure>(
            Dispatch {
                signer: handle.caller,
                call: RuntimeCall::Subtensor(
                    SubtensorCall::SetRejectLockedAlpha {
                        enabled,
                    },
                ),
            },
        ),
{
}

/// A proxy that is added is for staking only, and without delay.
pub proof fn law_add_proxy<R: Runtime>(
    precompile: StakingPrecompileV2<R>,
    handle: Handle,
    delegate: H256,
    result: EvmResult<Dispatch>,
)
    requires
        call_ensures(
            StakingPrecompileV2::<R>::add_proxy,
            (&precompile, &handle, delegate),
            result,
        ),
    ensures
        result == Ok::<Dispatch, PrecompileFailure>(
            Dispatch {
                signer: handle.caller,
                call: RuntimeCall::Proxy(
                    ProxyCall::AddProxy {
                        delegate: AccountId(delegate.0),
                        proxy_type: ProxyType::Staking,
                        delay: 0,
                    },
                ),
            },
        ),
{
}

/// A proxy that is removed is one for staking, without delay.
pub proof fn law_remove_proxy<R: Runtime>(
    precompile: StakingPrecompileV2<R>,
    handle: Handle,
    delegate: H256,
    result: EvmResult<Dispatch>,
)
    requires
        call_ensures(
            StakingPrecompileV2::<R>::remove_proxy,
            (&precompile, &handle, delegate),
            result,
        ),
    ensures
        result == Ok::<Dispatch, PrecompileFailure>(
            Dispatch {
                signer: handle.caller,
                call: RuntimeCall::Proxy(
                    ProxyCall::RemoveProxy {
                        delegate: AccountId(delegate.0),
                        proxy_type: ProxyType::Staking,
                        delay: 0,
                    },
                ),
            },
        ),
{
}

/// A take is lowered to the given one.
pub proof fn law_decrease_take<R: Runtime>(
    precompile: StakingPrecompileV2<R>,
    handle: Handle,
    hotkey: H256,
    take: u16,
    result: EvmResult<Dispatch>,
)
    requires
        call_ensures(
            StakingPrecompileV2::<R>::decrease_take,
            (&precompile, &handle, hotkey, take),
            result,
        ),
    ensures
        result == Ok::<Dispatch, PrecompileFailure>(
            Dispatch {
                signer: handle.caller,
                call: RuntimeCall::Subtensor(
                    SubtensorCall::DecreaseTake {
                        hotkey: AccountId(hotkey.0),
                        take,
                    },
                ),
            },
        ),
{
}

/// A take is raised to the given one.
pub proof fn law_increase_take<R: Runtime>(
    precompile: StakingPrecompileV2<R>,
    handle: Handle,
    hotkey: H256,
    take: u16,
    result: EvmResult<Dispatch>,
)
    requires
        call_ensures(
            StakingPrecompileV2::<R>::increase_take,
            (&precompile, &handle, hotkey, take),
            result,
        ),
    ensures
        result == Ok::<Dispatch, PrecompileFailure>(
            Dispatch {
                signer: handle.caller,
                call: RuntimeCall::Subtensor(
                    SubtensorCall::IncreaseTake {
                        hotkey: AccountId(hotkey.0),
                        take,
                    },
                ),
            },
        ),
{
}

/// A childkey take is set for the given hotkey and subnet.
pub proof fn law_set_childkey_take<R: Runtime>(
    precompile: StakingPrecompileV2<R>,
    handle: Handle,
    hotkey: H256,
    netuid: u16,
    take: u16,
    result: EvmResult<Dispatch>,
)
    requires
        call_ensures(
            StakingPrecompileV2::<R>::set_childkey_take,
            (&precompile, &handle, hotkey, netuid, take),
            result,
        ),
    ensures
        result == Ok::<Dispatch, PrecompileFailure>(
            Dispatch {
                signer: handle.caller,
                call: RuntimeCall::Subtensor(
                    SubtensorCall::SetChildkeyTake {
                        hotkey: AccountId(hotkey.0),
                        netuid,
                        take,
                    },
                ),
            },
        ),
{
}

/// The hotkey to stake on by itself is set for the given subnet.
pub proof fn law_set_coldkey_auto_stake_hotkey<R: Runtime>(
    precompile: StakingPrecompileV2<R>,
    handle: Handle,
    netuid: u16,
    hotkey: H256,
    result: EvmResult<Dispatch>,
)
    requires
        call_ensures(
            StakingPrecompileV2::<R>::set_coldkey_auto_stake_hotkey,
            (&precompile, &handle, netuid, hotkey),
            result,
        ),
    ensures
        result == Ok::<Dispatch, PrecompileFailure>(
            Dispatch {
                signer: handle.caller,
                call: RuntimeCall::Subtensor(
                    SubtensorCall::SetColdkeyAutoStakeHotkey {
                        netuid,
                        hotkey: AccountId(hotkey.0),
                    },
                ),
            },
        ),
{
}

/// Claiming from one validator names it.
pub proof fn law_claim_root_with_hotkey<R: Runtime>(
    precompile: StakingPrecompileV2<R>,
    handle: Handle,
    hotkey: H256,
    result: EvmResult<Dispatch>,
)
    requires
        call_ensures(
            StakingPrecompileV2::<R>::claim_root_with_hotkey,
            (&precompile, &handle, hotkey),
            result,
        ),
    ensures
        result == Ok::<Dispatch, PrecompileFailure>(
            Dispatch {
                signer: handle.caller,
                call: RuntimeCall::Subtensor(
                    SubtensorCall::ClaimRootWithHotkey {
                        hotkey: AccountId(hotkey.0),
                    },
                ),
            },
        ),
{
}

/// The threshold of claims is set for the given subnet.
pub proof fn law_set_root_claim_threshold<R: Runtime>(
    precompile: StakingPrecompileV2<R>,
    handle: Handle,
    netuid: u16,
    new_value: u64,
    result: EvmResult<Dispatch>,
)
    requires
        call_ensures(
            StakingPrecompileV2::<R>::set_root_claim_threshold,
            (&precompile, &handle, netuid, new_value),
            result,
        ),
    ensures
        result == Ok::<Dispatch, PrecompileFailure>(
            Dispatch {
                signer: handle.caller,
                call: RuntimeCall::Subtensor(
                    SubtensorCall::SudoSetRootClaimThreshold {
                        netuid,
                        new_value,
                    },
                ),
            },
        ),
{
}

/// Delegation to parents is enabled, or no longer is, as asked.
pub proof fn law_set_auto_parent_delegation_enabled<R: Runtime>(
    precompile: StakingPrecompileV2<R>,
    handle: Handle,
    hotkey: H256,
    enabled: bool,
    result: EvmResult<Dispatch>,
)
    requires
        call_ensures(
            StakingPrecompileV2::<R>::set_auto_parent_delegation_enabled,
            (&precompile, &handle, hotkey, enabled),
            result,
        ),
    ensures
        result == Ok::<Dispatch, PrecompileFailure>(
            Dispatch {
                signer: handle.caller,
                call: RuntimeCall::Subtensor(
                    SubtensorCall::SetAutoParentDelegationEnabled {
                        hotkey: AccountId(hotkey.0),
                        enabled,
                    },
                ),
            },
        ),
{
}

/// Collateral is added with the given amount and price limit.
pub proof fn law_add_collateral<R: Runtime>(
    precompile: StakingPrecompileV2<R>,
    handle: Handle,
    netuid: u16,
    hotkey: H256,
    alpha: u64,
    limit_price: u64,
    result: EvmResult<Dispatch>,
)
    requires
        call_ensures(
            StakingPrecompileV2::<R>::add_collateral,
            (&precompile, &handle, netuid, hotkey, alpha, limit_price),
            result,
        ),
    ensures
        result == Ok::<Dispatch, PrecompileFailure>(
            Dispatch {
                signer: handle.caller,
                call: RuntimeCall::Subtensor(
                    SubtensorCall::AddCollateral {
                        netuid,
                        hotkey: AccountId(hotkey.0),
                        alpha,
                        limit_price,
                    },
                ),
            },
        ),
{
}

/// The least collateral is set as given.
pub proof fn law_set_min_collateral<R: Runtime>(
    precompile: StakingPrecompileV2<R>,
    handle: Handle,
    netuid: u16,
    hotkey: H256,
    min_locked: u64,
    result: EvmResult<Dispatch>,
)
    requires
        call_ensures(
            StakingPrecompileV2::<R>::set_min_collateral,
            (&precompile, &handle, netuid, hotkey, min_locked),
            result,
        ),
    ensures
        result == Ok::<Dispatch, PrecompileFailure>(
            Dispatch {
                signer: handle.caller,
                call: RuntimeCall::Subtensor(
                    SubtensorCall::SetMinCollateral {
                        netuid,
                        hotkey: AccountId(hotkey.0),
                        min_locked,
                    },
                ),
            },
        ),
{
}

/// The least childkey take of a subnet is set as given.
pub proof fn law_set_min_childkey_take_per_subnet<R: Runtime>(
    precompile: StakingPrecompileV2<R>,
    handle: Handle,
    netuid: u16,
    take: u16,
    result: EvmResult<Dispatch>,
)
    requires
        call_ensures(
            StakingPrecompileV2::<R>::set_min_childkey_take_per_subnet,
            (&precompile, &handle, netuid, take),
            result,
        ),
    ensures
        result == Ok::<Dispatch, PrecompileFailure>(
            Dispatch {
                signer: handle.caller,
                call: RuntimeCall::AdminUtils(
                    AdminCall::SudoSetMinChildkeyTakePerSubnet {
                        netuid,
                        take,
                    },
                ),
            },
        ),
{
}

/// The lock share of a subnet is set as given.
pub proof fn law_set_collateral_lock_share<R: Runtime>(
    precompile: StakingPrecompileV2<R>,
    handle: Handle,
    netuid: u16,
    lock_share: u16,
    result: EvmResult<Dispatch>,
)
    requires
        call_ensures(
            StakingPrecompileV2::<R>::set_collateral_lock_share,
            (&precompile, &handle, netuid, lock_share),
            result,
        ),
    ensures
        result == Ok::<Dispatch, PrecompileFailure>(
            Dispatch {
                signer: handle.caller,
                call: RuntimeCall::AdminUtils(
                    AdminCall::SudoSetCollateralLockShare {
                        netuid,
                        lock_share,
                    },
                ),
            },
        ),
{
}

/// The drain ratio of a subnet is set to the given bits.
pub proof fn law_set_collateral_drain_ratio<R: Runtime>(
    precompile: StakingPrecompileV2<R>,
    handle: Handle,
    netuid: u16,
    raw_ratio: u128,
    result: EvmResult<Dispatch>,
)
    requires
        call_ensures(
            StakingPrecompileV2::<R>::set_collateral_drain_ratio,
            (&precompile, &handle, netuid, raw_ratio),
            result,
        ),
    ensures
        result == Ok::<Dispatch, PrecompileFailure>(
            Dispatch {
                signer: handle.caller,
                call: RuntimeCall::AdminUtils(
                    AdminCall::SudoSetCollateralDrainRatio {
                        netuid,
                        drain_ratio: raw_ratio,
                    },
                ),
            },
        ),
{
}

/// Claiming root emission asks for exactly the given subnets, each once; a list of more than five
/// is refused, though it may repeat some.
pub proof fn law_claim_root<R: Runtime>(
    precompile: StakingPrecompileV2<R>,
    handle: Handle,
    subnets: Vec<u16>,
    result: EvmResult<Dispatch>,
)
    requires
        call_ensures(
            StakingPrecompileV2::<R>::claim_root,
            (&precompile, &handle, subnets),
            result,
        ),
    ensures
        subnets@.len() > 5 ==> reverts(result, "subnets: Value is too large for length"),
        subnets@.len() <= 5 ==> {
            &&& result matches Ok(dispatch)
            &&& dispatch.signer == handle.caller
            &&& dispatch.call matches RuntimeCall::Subtensor(call)
            &&& call matches SubtensorCall::ClaimRoot { subnets: claimed }
            &&& forall|netuid: u16| #[trigger]
                claimed@.contains(netuid) <==> exists|i: int|
                    0 <= i < subnets@.len() && subnets@[i] == netuid
        },
{
}

/// The older precompile adds a proxy that is for staking only, and without delay.
pub proof fn law_older_add_proxy<R: Runtime>(
    precompile: StakingPrecompile<R>,
    handle: Handle,
    delegate: H256,
    result: EvmResult<Dispatch>,
)
    requires
        call_ensures(
            StakingPrecompile::<R>::add_proxy,
            (&precompile, &handle, delegate),
            result,
        ),
    ensures
        result == Ok::<Dispatch, PrecompileFailure>(
            Dispatch {
                signer: handle.caller,
                call: RuntimeCall::Proxy(
                    ProxyCall::AddProxy {
                        delegate: AccountId(delegate.0),
                        proxy_type: ProxyType::Staking,
                        delay: 0,
                    },
                ),
            },
        ),
{
}

/// The older precompile removes a proxy for staking, without delay.
pub proof fn law_older_remove_proxy<R: Runtime>(
    precompile: StakingPrecompile<R>,
    handle: Handle,
    delegate: H256,
    result: EvmResult<Dispatch>,
)
    requires
        call_ensures(
            StakingPrecompile::<R>::remove_proxy,
            (&precompile, &handle, delegate),
            result,
        ),
    ensures
        result == Ok::<Dispatch, PrecompileFailure>(
            Dispatch {
                signer: handle.caller,
                call: RuntimeCall::Proxy(
                    ProxyCall::RemoveProxy {
                        delegate: AccountId(delegate.0),
                        proxy_type: ProxyType::Staking,
                        delay: 0,
                    },
                ),
            },
        ),
{
}

} // verus!
