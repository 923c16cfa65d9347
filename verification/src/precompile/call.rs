//! The runtime calls that the precompiles ask for.
use crate::precompile::failure::{answered, EvmResult};
use crate::precompile::handle::Handle;
use crate::primitives::{AccountId, H160};
use std::collections::BTreeSet;
use vstd::prelude::*;

verus! {

/// A native account.
#[derive(Clone, Copy, PartialEq, Eq, Debug)]
pub enum Account {
    /// The account with this identifier.
    Native(AccountId),
    /// The account that this EVM address maps to.
    Mapped(H160),
}

/// What a proxy may do.
#[derive(Clone, Copy, PartialEq, Eq, Debug)]
pub enum ProxyType {
    /// Staking calls only.
    Staking,
}

/// A call of the subtensor pallet.
#[allow(inconsistent_fields)]
#[derive(PartialEq, Eq, Debug)]
pub enum SubtensorCall {
    AddStake { hotkey: AccountId, netuid: u16, amount_staked: u64 },
    RemoveStake { hotkey: AccountId, netuid: u16, amount_unstaked: u64 },
    RemoveStakeFullLimit { hotkey: AccountId, netuid: u16, limit_price: Option<u64> },
    MoveStake {
        origin_hotkey: AccountId,
        destination_hotkey: AccountId,
        origin_netuid: u16,
        destination_netuid: u16,
        alpha_amount: u64,
    },
    TransferStake {
        destination_coldkey: Account,
        hotkey: AccountId,
        origin_netuid: u16,
        destination_netuid: u16,
        alpha_amount: u64,
    },
    BurnAlpha { hotkey: AccountId, amount: u64, netuid: u16 },
    LockStake { hotkey: AccountId, netuid: u16, amount: u64 },
    MoveLock { destination_hotkey: AccountId, netuid: u16 },
    SetPerpetualLock { netuid: u16, enabled: bool },
    SetRejectLockedAlpha { enabled: bool },
    AddStakeLimit {
        hotkey: AccountId,
        netuid: u16,
        amount_staked: u64,
        limit_price: u64,
        allow_partial: bool,
    },
    RemoveStakeLimit {
        hotkey: AccountId,
        netuid: u16,
        amount_unstaked: u64,
        limit_price: u64,
        allow_partial: bool,
    },
    /// `take` in parts of 65535, as are all takes below.
    DecreaseTake { hotkey: AccountId, take: u16 },
    IncreaseTake { hotkey: AccountId, take: u16 },
    SetChildkeyTake { hotkey: AccountId, netuid: u16, take: u16 },
    UnstakeAll { hotkey: AccountId },
    UnstakeAllAlpha { hotkey: AccountId },
    SwapStake {
        hotkey: AccountId,
        origin_netuid: u16,
        destination_netuid: u16,
        alpha_amount: u64,
    },
    SwapStakeLimit {
        hotkey: AccountId,
        origin_netuid: u16,
        destination_netuid: u16,
        alpha_amount: u64,
        limit_price: u64,
        allow_partial: bool,
    },
    MoveStakeLimit {
        origin_hotkey: AccountId,
        destination_hotkey: AccountId,
        origin_netuid: u16,
        destination_netuid: u16,
        alpha_amount: u64,
        limit_price: u64,
        allow_partial: bool,
    },
    RecycleAlpha { hotkey: AccountId, amount: u64, netuid: u16 },
    SetColdkeyAutoStakeHotkey { netuid: u16, hotkey: AccountId },
    ClaimRoot { subnets: BTreeSet<u16> },
    ClaimRootWithHotkey { hotkey: AccountId },
    SudoSetRootClaimThreshold { netuid: u16, new_value: u64 },
    AddStakeBurn { hotkey: AccountId, netuid: u16, amount: u64, limit: Option<u64> },
    SetAutoParentDelegationEnabled { hotkey: AccountId, enabled: bool },
    TransferStakeAndHotkey {
        destination_coldkey: AccountId,
        origin_hotkey: AccountId,
        destination_hotkey: AccountId,
        origin_netuid: u16,
        destination_netuid: u16,
        alpha_amount: u64,
    },
    AddCollateral { netuid: u16, hotkey: AccountId, alpha: u64, limit_price: u64 },
    SetMinCollateral { netuid: u16, hotkey: AccountId, min_locked: u64 },
}

/// A call of the admin pallet.
#[derive(Clone, Copy, PartialEq, Eq, Debug)]
pub enum AdminCall {
    SudoSetMinChildkeyTakePerSubnet { netuid: u16, take: u16 },
    SudoSetCollateralLockShare { netuid: u16, lock_share: u16 },
    /// `drain_ratio` as the bits of an unsigned number with 64 bits after the point.
    SudoSetCollateralDrainRatio { netuid: u16, drain_ratio: u128 },
}

/// A call of the proxy pallet.
#[derive(Clone, Copy, PartialEq, Eq, Debug)]
pub enum ProxyCall {
    AddProxy { delegate: AccountId, proxy_type: ProxyType, delay: u32 },
    RemoveProxy { delegate: AccountId, proxy_type: ProxyType, delay: u32 },
}

/// A call of the runtime.
#[derive(PartialEq, Eq, Debug)]
pub enum RuntimeCall {
    Subtensor(SubtensorCall),
    AdminUtils(AdminCall),
    Proxy(ProxyCall),
}

/// A runtime call to dispatch, signed by the account that the EVM address `signer` maps to.
#[derive(PartialEq, Eq, Debug)]
pub struct Dispatch {
    pub signer: H160,
    pub call: RuntimeCall,
}

/// The dispatch of a subtensor call.
pub open spec fn subtensor(signer: H160, call: SubtensorCall) -> Dispatch {
    Dispatch { signer, call: RuntimeCall::Subtensor(call) }
}

/// The dispatch of an admin call.
pub open spec fn admin(signer: H160, call: AdminCall) -> Dispatch {
    Dispatch { signer, call: RuntimeCall::AdminUtils(call) }
}

/// The dispatch of a proxy call.
pub open spec fn proxy(signer: H160, call: ProxyCall) -> Dispatch {
    Dispatch { signer, call: RuntimeCall::Proxy(call) }
}

/// Asks for a subtensor call, signed by the caller.
pub fn dispatch_subtensor(handle: &Handle, call: SubtensorCall) -> (dispatch: EvmResult<Dispatch>)
    ensures
        answered(dispatch, subtensor(handle.caller, call)),
{
    Ok(Dispatch { signer: handle.caller, call: RuntimeCall::Subtensor(call) })
}

/// Asks for an admin call, signed by the caller.
pub fn dispatch_staking_admin(handle: &Handle, call: AdminCall) -> (dispatch: EvmResult<Dispatch>)
    ensures
        answered(dispatch, admin(handle.caller, call)),
{
    Ok(Dispatch { signer: handle.caller, call: RuntimeCall::AdminUtils(call) })
}

/// Asks for a proxy call, signed by the caller.
pub fn dispatch_proxy(handle: &Handle, call: ProxyCall) -> (dispatch: EvmResult<Dispatch>)
    ensures
        answered(dispatch, proxy(handle.caller, call)),
{
    Ok(Dispatch { signer: handle.caller, call: RuntimeCall::Proxy(call) })
}

} // verus!
