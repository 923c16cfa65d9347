//! What the calls of the older precompile ask for, on a chain that gives one answer only.
use crate::precompile::call::{Dispatch, RuntimeCall, SubtensorCall};
use crate::precompile::dispatch_laws::stopped;
use crate::precompile::failure::{EvmResult, ExitError, PrecompileFailure};
use crate::precompile::handle::Handle;
use crate::precompile::runtime::Runtime;
use crate::precompile::stake_laws::cap;
use crate::precompile::staking_v1::{funds_of, StakingPrecompile, Transfer, TransferBack};
use crate::primitives::{AccountId, H160, H256};
use crate::u256::U256;
use vstd::prelude::*;

verus! {

/// Whether a call ended because an amount cannot be expressed in native units.
pub open spec fn out_of_fund<T>(result: EvmResult<T>) -> bool {
    result == Err::<T, PrecompileFailure>(
        PrecompileFailure::Error { exit_status: ExitError::OutOfFund },
    )
}

/// A native amount is taken as far as a `u64` holds it, and missing funds are a failure.
pub proof fn law_funds_of(amount: Option<U256>, result: EvmResult<u64>)
    requires
        call_ensures(funds_of, (amount,), result),
    ensures
        amount is None ==> out_of_fund(result),
        amount matches Some(native) ==> result == Ok::<u64, PrecompileFailure>(
            cap(native@ as int) as u64,
        ),
{
}

/// Whether a result is the transfer of a native amount from the precompile's account to `caller`, or
/// the failure where there is no such amount or the chain's balances cannot hold it.
pub open spec fn gives_back(
    caller: H160,
    native: Option<U256>,
    held: bool,
    result: EvmResult<Transfer>,
) -> bool {
    match native {
        None => out_of_fund(result),
        Some(native) => if held {
            result == Ok::<Transfer, PrecompileFailure>(
                Transfer { source: 2049, dest: caller, value: cap(native@ as int) as u64 },
            )
        } else {
            stopped(result, "Failed to convert u64 to Balance")
        },
    }
}

/// What is given back goes from the precompile's account to the caller, and is the native amount
/// that the chain makes of the value.
pub proof fn law_transfer_back_to_caller<R: Runtime>(
    precompile: StakingPrecompile<R>,
    caller: H160,
    amount: U256,
    native: Option<U256>,
    held: spec_fn(u64) -> bool,
    result: EvmResult<Transfer>,
)
    requires
        call_ensures(
            StakingPrecompile::<R>::transfer_back_to_caller,
            (&precompile, caller, amount),
            result,
        ),
        forall|answer: Option<U256>| #[trigger]
            call_ensures(R::into_substrate_balance, (&precompile.runtime, amount), answer)
                ==> answer == native,
        forall|value: u64, answer: bool| #[trigger]
            call_ensures(R::holds_balance, (&precompile.runtime, value), answer) ==> answer == held(
                value,
            ),
    ensures
        gives_back(
            caller,
            native,
            native is Some && held(cap(native->0@ as int) as u64),
            result,
        ),
{
}

/// The value sent is given back to whoever sent it, and where none was sent nothing is.
pub proof fn law_transfer_back<R: Runtime>(
    precompile: StakingPrecompile<R>,
    handle: Handle,
    native: Option<U256>,
    held: spec_fn(u64) -> bool,
    result: EvmResult<Option<Transfer>>,
)
    requires
        call_ensures(StakingPrecompile::<R>::transfer_back, (&precompile, &handle), result),
        forall|answer: Option<U256>| #[trigger]
            call_ensures(
                R::into_substrate_balance,
                (&precompile.runtime, handle.apparent_value),
                answer,
            ) ==> answer == native,
        forall|value: u64, answer: bool| #[trigger]
            call_ensures(R::holds_balance, (&precompile.runtime, value), answer) ==> answer == held(
                value,
            ),
    ensures
        handle.apparent_value@ == 0 ==> result == Ok::<Option<Transfer>, PrecompileFailure>(None),
        handle.apparent_value@ != 0 ==> match result {
            Err(failure) => gives_back(
                handle.caller,
                native,
                native is Some && held(cap(native->0@ as int) as u64),
                Err(failure),
            ),
            Ok(planned) => planned is Some && gives_back(
                handle.caller,
                native,
                native is Some && held(cap(native->0@ as int) as u64),
                Ok(planned->0),
            ),
        },
{
}

/// Adding stake through the older precompile stakes, in the name of the caller, the native amount
/// that the chain makes of the value sent, unless the transfer back failed.
pub proof fn law_older_add_stake<R: Runtime>(
    precompile: StakingPrecompile<R>,
    handle: Handle,
    address: H256,
    netuid: U256,
    transfer: TransferBack,
    native: EvmResult<U256>,
    result: EvmResult<Dispatch>,
)
    requires
        call_ensures(
            StakingPrecompile::<R>::add_stake,
            (&precompile, &handle, address, netuid, transfer),
            result,
        ),
        forall|answer: EvmResult<U256>| #[trigger]
            call_ensures(
                R::try_convert_apparent_value,
                (&precompile.runtime, handle.apparent_value),
                answer,
            ) ==> answer == native,
    ensures
        if transfer is Failed {
            stopped(result, "Transfer back to caller failed")
        } else {
            match native {
                Err(failure) => result == Err::<Dispatch, PrecompileFailure>(failure),
                Ok(amount) => if netuid@ > 0xffff {
                    stopped(result, "the value is outside of u16 bounds")
                } else {
                    result == Ok::<Dispatch, PrecompileFailure>(
                        Dispatch {
                            signer: handle.caller,
                            call: RuntimeCall::Subtensor(
                                SubtensorCall::AddStake {
                                    hotkey: AccountId(address.0),
                                    netuid: netuid@ as u16,
                                    amount_staked: cap(amount@ as int) as u64,
                                },
                            ),
                        },
                    )
                },
            }
        },
{
}

/// Removing stake through the older precompile takes, in the name of the caller, the native amount
/// that the chain makes of the EVM amount off the hotkey.
pub proof fn law_older_remove_stake<R: Runtime>(
    precompile: StakingPrecompile<R>,
    handle: Handle,
    address: H256,
    amount: U256,
    netuid: U256,
    native: Option<U256>,
    result: EvmResult<Dispatch>,
)
    requires
        call_ensures(
            StakingPrecompile::<R>::remove_stake,
            (&precompile, &handle, address, amount, netuid),
            result,
        ),
        forall|answer: Option<U256>| #[trigger]
            call_ensures(R::into_substrate_balance, (&precompile.runtime, amount), answer)
                ==> answer == native,
    ensures
        if netuid@ > 0xffff {
            stopped(result, "the value is outside of u16 bounds")
        } else {
            match native {
                None => out_of_fund(result),
                Some(value) => result == Ok::<Dispatch, PrecompileFailure>(
                    Dispatch {
                        signer: handle.caller,
                        call: RuntimeCall::Subtensor(
                            SubtensorCall::RemoveStake {
                                hotkey: AccountId(address.0),
                                netuid: netuid@ as u16,
                                amount_unstaked: cap(value@ as int) as u64,
                            },
                        ),
                    },
                ),
            }
        },
{
}

} // verus!
