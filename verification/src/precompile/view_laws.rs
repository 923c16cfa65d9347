//! What each view answers, and what it charges, on a chain that gives one answer only.
use crate::precompile::dispatch_laws::stopped;
use crate::precompile::failure::{EvmResult, ExitError, PrecompileFailure};
use crate::precompile::handle::Handle;
use crate::precompile::runtime::{CollateralState, Runtime};
use crate::precompile::staking_v2::StakingPrecompileV2;
use crate::primitives::{AccountId, H256};
use crate::u256::U256;
use vstd::prelude::*;

verus! {

/// The gas for `times` accesses at `price` each, as far as a `u64` holds it.
pub open spec fn gas(price: int, times: int) -> int {
    if price * times < 0xffff_ffff_ffff_ffff {
        price * times
    } else {
        0xffff_ffff_ffff_ffff
    }
}

/// Whether exactly `cost` was taken from the gas that was left, or nothing where less was left, and
/// nothing else of the call changed.
pub open spec fn pays(before: Handle, after: Handle, cost: int) -> bool {
    &&& cost <= before.gas_left ==> after.gas_left == before.gas_left - cost
    &&& cost > before.gas_left ==> after.gas_left == before.gas_left
    &&& after.caller == before.caller
    &&& after.apparent_value == before.apparent_value
    &&& after.db_read_gas == before.db_read_gas
    &&& after.db_write_gas == before.db_write_gas
}

/// Whether a call ended for want of gas.
pub open spec fn out_of_gas<T>(result: EvmResult<T>) -> bool {
    result == Err::<T, PrecompileFailure>(
        PrecompileFailure::Error { exit_status: ExitError::OutOfGas },
    )
}

/// Whether a word is all zeros.
pub open spec fn all_zero(word: H256) -> bool {
    forall|i: int| 0 <= i < 32 ==> #[trigger] word.0@[i] == 0
}

/// A delegate is answered with its take, and a hotkey that is none with a take of zero. It is
/// charged for before it is read.
pub proof fn law_get_delegate<R: Runtime>(
    precompile: StakingPrecompileV2<R>,
    handle: &mut Handle,
    hotkey: H256,
    take: Option<u16>,
    result: EvmResult<(bool, u16)>,
)
    requires
        call_ensures(StakingPrecompileV2::<R>::get_delegate, (&precompile, handle, hotkey), result),
        forall|answer: Option<u16>| #[trigger]
            call_ensures(
                R::delegate_take,
                (&precompile.runtime, AccountId(hotkey.0)),
                answer,
            ) ==> answer == take,
    ensures
        pays(*old(handle), *final(handle), gas(old(handle).db_read_gas as int, 1)),
        if gas(old(handle).db_read_gas as int, 1) > old(handle).gas_left {
            out_of_gas(result)
        } else {
            &&& result matches Ok(given)
            &&& given.0 == (take is Some)
            &&& take is Some ==> given.1 == take->0
            &&& take is None ==> given.1 == 0
        },
{
}

/// The childkey take answered is that of the hotkey on the subnet. It is charged for before it is
/// read.
pub proof fn law_get_childkey_take<R: Runtime>(
    precompile: StakingPrecompileV2<R>,
    handle: &mut Handle,
    hotkey: H256,
    netuid: u16,
    take: u16,
    result: EvmResult<u16>,
)
    requires
        call_ensures(
            StakingPrecompileV2::<R>::get_childkey_take,
            (&precompile, handle, hotkey, netuid),
            result,
        ),
        forall|answer: u16| #[trigger]
            call_ensures(
                R::childkey_take,
                (&precompile.runtime, AccountId(hotkey.0), netuid),
                answer,
            ) ==> answer == take,
    ensures
        pays(*old(handle), *final(handle), gas(old(handle).db_read_gas as int, 1)),
        if gas(old(handle).db_read_gas as int, 1) > old(handle).gas_left {
            out_of_gas(result)
        } else {
            &&& result matches Ok(given)
            &&& given == take
        },
{
}

/// Pending children are answered in their order, each with its own proportion, and with the block
/// of their cooldown. It is charged for before it is read.
pub proof fn law_get_pending_child_keys<R: Runtime>(
    precompile: StakingPrecompileV2<R>,
    handle: &mut Handle,
    parent: H256,
    netuid: u16,
    pending: (Vec<(u64, AccountId)>, u64),
    result: EvmResult<(Vec<(u64, H256)>, u64)>,
)
    requires
        call_ensures(
            StakingPrecompileV2::<R>::get_pending_child_keys,
            (&precompile, handle, parent, netuid),
            result,
        ),
        forall|answer: (Vec<(u64, AccountId)>, u64)| #[trigger]
            call_ensures(
                R::pending_child_keys,
                (&precompile.runtime, netuid, AccountId(parent.0)),
                answer,
            ) ==> answer.0@ == pending.0@ && answer.1 == pending.1,
    ensures
        pays(*old(handle), *final(handle), gas(old(handle).db_read_gas as int, 1)),
        if gas(old(handle).db_read_gas as int, 1) > old(handle).gas_left {
            out_of_gas(result)
        } else {
            &&& result matches Ok(given)
            &&& given.0@.len() == pending.0@.len()
            &&& forall|i: int|
                0 <= i < pending.0@.len() ==> (#[trigger] given.0@[i]).0 == pending.0@[i].0 && given.0@[i].1.0
                    == pending.0@[i].1.0
            &&& given.1 == pending.1
        },
{
}

/// Children are answered in their order, each with its own proportion. It is charged for before
/// it is read.
pub proof fn law_get_child_keys<R: Runtime>(
    precompile: StakingPrecompileV2<R>,
    handle: &mut Handle,
    parent: H256,
    netuid: u16,
    children: Vec<(u64, AccountId)>,
    result: EvmResult<Vec<(u64, H256)>>,
)
    requires
        call_ensures(
            StakingPrecompileV2::<R>::get_child_keys,
            (&precompile, handle, parent, netuid),
            result,
        ),
        forall|answer: Vec<(u64, AccountId)>| #[trigger]
            call_ensures(
                R::child_keys,
                (&precompile.runtime, AccountId(parent.0), netuid),
                answer,
            ) ==> answer@ == children@,
    ensures
        pays(*old(handle), *final(handle), gas(old(handle).db_read_gas as int, 1)),
        if gas(old(handle).db_read_gas as int, 1) > old(handle).gas_left {
            out_of_gas(result)
        } else {
            &&& result matches Ok(given)
            &&& given@.len() == children@.len()
            &&& forall|i: int|
                0 <= i < children@.len() ==> (#[trigger] given@[i]).0 == children@[i].0 && given@[i].1.0
                    == children@[i].1.0
        },
{
}

/// Parents are answered in their order, each with its own proportion. It is charged for before it
/// is read.
pub proof fn law_get_parent_keys<R: Runtime>(
    precompile: StakingPrecompileV2<R>,
    handle: &mut Handle,
    child: H256,
    netuid: u16,
    parents: Vec<(u64, AccountId)>,
    result: EvmResult<Vec<(u64, H256)>>,
)
    requires
        call_ensures(
            StakingPrecompileV2::<R>::get_parent_keys,
            (&precompile, handle, child, netuid),
            result,
        ),
        forall|answer: Vec<(u64, AccountId)>| #[trigger]
            call_ensures(
                R::parent_keys,
                (&precompile.runtime, AccountId(child.0), netuid),
                answer,
            ) ==> answer@ == parents@,
    ensures
        pays(*old(handle), *final(handle), gas(old(handle).db_read_gas as int, 1)),
        if gas(old(handle).db_read_gas as int, 1) > old(handle).gas_left {
            out_of_gas(result)
        } else {
            &&& result matches Ok(given)
            &&& given@.len() == parents@.len()
            &&& forall|i: int|
                0 <= i < parents@.len() ==> (#[trigger] given@[i]).0 == parents@[i].0 && given@[i].1.0
                    == parents@[i].1.0
        },
{
}

/// The cooldown answered is the one of pending children. It is charged for before it is read.
pub proof fn law_get_pending_childkey_cooldown<R: Runtime>(
    precompile: StakingPrecompileV2<R>,
    handle: &mut Handle,
    cooldown: u64,
    result: EvmResult<u64>,
)
    requires
        call_ensures(
            StakingPrecompileV2::<R>::get_pending_childkey_cooldown,
            (&precompile, handle),
            result,
        ),
        forall|answer: u64| #[trigger]
            call_ensures(
                R::pending_child_key_cooldown,
                (&precompile.runtime,),
                answer,
            ) ==> answer == cooldown,
    ensures
        pays(*old(handle), *final(handle), gas(old(handle).db_read_gas as int, 1)),
        if gas(old(handle).db_read_gas as int, 1) > old(handle).gas_left {
            out_of_gas(result)
        } else {
            &&& result matches Ok(given)
            &&& given == cooldown
        },
{
}

/// The take limits are answered as the least and greatest of delegates and then of childkeys. It
/// is charged for before it is read.
pub proof fn law_get_take_limits<R: Runtime>(
    precompile: StakingPrecompileV2<R>,
    handle: &mut Handle,
    min_delegate: u16,
    max_delegate: u16,
    min_childkey: u16,
    max_childkey: u16,
    result: EvmResult<(u16, u16, u16, u16)>,
)
    requires
        call_ensures(StakingPrecompileV2::<R>::get_take_limits, (&precompile, handle), result),
        forall|answer: u16| #[trigger]
            call_ensures(
                R::min_delegate_take,
                (&precompile.runtime,),
                answer,
            ) ==> answer == min_delegate,
        forall|answer: u16| #[trigger]
            call_ensures(
                R::max_delegate_take,
                (&precompile.runtime,),
                answer,
            ) ==> answer == max_delegate,
        forall|answer: u16| #[trigger]
            call_ensures(
                R::min_childkey_take,
                (&precompile.runtime,),
                answer,
            ) ==> answer == min_childkey,
        forall|answer: u16| #[trigger]
            call_ensures(
                R::max_childkey_take,
                (&precompile.runtime,),
                answer,
            ) ==> answer == max_childkey,
    ensures
        pays(*old(handle), *final(handle), gas(old(handle).db_read_gas as int, 4)),
        if gas(old(handle).db_read_gas as int, 4) > old(handle).gas_left {
            out_of_gas(result)
        } else {
            &&& result matches Ok(given)
            &&& given.0 == min_delegate
            &&& given.1 == max_delegate
            &&& given.2 == min_childkey
            &&& given.3 == max_childkey
        },
{
}

/// The least childkey take answered is that of the subnet. It is charged for before it is read.
pub proof fn law_get_min_childkey_take_per_subnet<R: Runtime>(
    precompile: StakingPrecompileV2<R>,
    handle: &mut Handle,
    netuid: u16,
    take: u16,
    result: EvmResult<u16>,
)
    requires
        call_ensures(
            StakingPrecompileV2::<R>::get_min_childkey_take_per_subnet,
            (&precompile, handle, netuid),
            result,
        ),
        forall|answer: u16| #[trigger]
            call_ensures(
                R::min_childkey_take_per_subnet,
                (&precompile.runtime, netuid),
                answer,
            ) ==> answer == take,
    ensures
        pays(*old(handle), *final(handle), gas(old(handle).db_read_gas as int, 1)),
        if gas(old(handle).db_read_gas as int, 1) > old(handle).gas_left {
            out_of_gas(result)
        } else {
            &&& result matches Ok(given)
            &&& given == take
        },
{
}

/// The owner of a hotkey is answered, or that there is none. It is charged for before it is read.
pub proof fn law_get_hotkey_owner<R: Runtime>(
    precompile: StakingPrecompileV2<R>,
    handle: &mut Handle,
    hotkey: H256,
    owner: Option<AccountId>,
    result: EvmResult<(bool, H256)>,
)
    requires
        call_ensures(
            StakingPrecompileV2::<R>::get_hotkey_owner,
            (&precompile, handle, hotkey),
            result,
        ),
        forall|answer: Option<AccountId>| #[trigger]
            call_ensures(
                R::owner,
                (&precompile.runtime, AccountId(hotkey.0)),
                answer,
            ) ==> answer == owner,
    ensures
        pays(*old(handle), *final(handle), gas(old(handle).db_read_gas as int, 1)),
        if gas(old(handle).db_read_gas as int, 1) > old(handle).gas_left {
            out_of_gas(result)
        } else {
            &&& result matches Ok(given)
            &&& given.0 == (owner is Some)
            &&& owner matches Some(account) ==> given.1.0 == account.0
            &&& owner is None ==> all_zero(given.1)
        },
{
}

/// The hotkeys of a coldkey are answered, all of them and in their order. It is charged for
/// before it is read.
pub proof fn law_get_owned_hotkeys<R: Runtime>(
    precompile: StakingPrecompileV2<R>,
    handle: &mut Handle,
    coldkey: H256,
    hotkeys: Vec<AccountId>,
    result: EvmResult<Vec<H256>>,
)
    requires
        call_ensures(
            StakingPrecompileV2::<R>::get_owned_hotkeys,
            (&precompile, handle, coldkey),
            result,
        ),
        forall|answer: Vec<AccountId>| #[trigger]
            call_ensures(
                R::owned_hotkeys,
                (&precompile.runtime, AccountId(coldkey.0)),
                answer,
            ) ==> answer@ == hotkeys@,
    ensures
        pays(*old(handle), *final(handle), gas(old(handle).db_read_gas as int, 1)),
        if gas(old(handle).db_read_gas as int, 1) > old(handle).gas_left {
            out_of_gas(result)
        } else {
            &&& result matches Ok(given)
            &&& given@.len() == hotkeys@.len()
            &&& forall|i: int|
                0 <= i < hotkeys@.len() ==> (#[trigger] given@[i]).0 == hotkeys@[i].0
        },
{
}

/// The hotkey that a coldkey stakes on by itself is answered, or that there is none. It is
/// charged for before it is read.
pub proof fn law_get_auto_stake_destination<R: Runtime>(
    precompile: StakingPrecompileV2<R>,
    handle: &mut Handle,
    coldkey: H256,
    netuid: u16,
    chosen: Option<AccountId>,
    result: EvmResult<(bool, H256)>,
)
    requires
        call_ensures(
            StakingPrecompileV2::<R>::get_auto_stake_destination,
            (&precompile, handle, coldkey, netuid),
            result,
        ),
        forall|answer: Option<AccountId>| #[trigger]
            call_ensures(
                R::auto_stake_destination,
                (&precompile.runtime, AccountId(coldkey.0), netuid),
                answer,
            ) ==> answer == chosen,
    ensures
        pays(*old(handle), *final(handle), gas(old(handle).db_read_gas as int, 1)),
        if gas(old(handle).db_read_gas as int, 1) > old(handle).gas_left {
            out_of_gas(result)
        } else {
            &&& result matches Ok(given)
            &&& given.0 == (chosen is Some)
            &&& chosen matches Some(account) ==> given.1.0 == account.0
            &&& chosen is None ==> all_zero(given.1)
        },
{
}

/// The coldkeys that stake on a hotkey by themselves are answered, all of them and in their
/// order. It is charged for before it is read.
pub proof fn law_get_auto_stake_destination_coldkeys<R: Runtime>(
    precompile: StakingPrecompileV2<R>,
    handle: &mut Handle,
    hotkey: H256,
    netuid: u16,
    coldkeys: Vec<AccountId>,
    result: EvmResult<Vec<H256>>,
)
    requires
        call_ensures(
            StakingPrecompileV2::<R>::get_auto_stake_destination_coldkeys,
            (&precompile, handle, hotkey, netuid),
            result,
        ),
        forall|answer: Vec<AccountId>| #[trigger]
            call_ensures(
                R::auto_stake_destination_coldkeys,
                (&precompile.runtime, AccountId(hotkey.0), netuid),
                answer,
            ) ==> answer@ == coldkeys@,
    ensures
        pays(*old(handle), *final(handle), gas(old(handle).db_read_gas as int, 1)),
        if gas(old(handle).db_read_gas as int, 1) > old(handle).gas_left {
            out_of_gas(result)
        } else {
            &&& result matches Ok(given)
            &&& given@.len() == coldkeys@.len()
            &&& forall|i: int|
                0 <= i < coldkeys@.len() ==> (#[trigger] given@[i]).0 == coldkeys@[i].0
        },
{
}

/// The successor of a hotkey on the subnet is answered, or that there is none. It is charged for
/// before it is read.
pub proof fn law_get_hotkey_successor<R: Runtime>(
    precompile: StakingPrecompileV2<R>,
    handle: &mut Handle,
    hotkey: H256,
    netuid: u16,
    successor: Option<AccountId>,
    result: EvmResult<(bool, H256)>,
)
    requires
        call_ensures(
            StakingPrecompileV2::<R>::get_hotkey_successor,
            (&precompile, handle, hotkey, netuid),
            result,
        ),
        forall|answer: Option<AccountId>| #[trigger]
            call_ensures(
                R::hotkey_successor,
                (&precompile.runtime, netuid, AccountId(hotkey.0)),
                answer,
            ) ==> answer == successor,
    ensures
        pays(*old(handle), *final(handle), gas(old(handle).db_read_gas as int, 1)),
        if gas(old(handle).db_read_gas as int, 1) > old(handle).gas_left {
            out_of_gas(result)
        } else {
            &&& result matches Ok(given)
            &&& given.0 == (successor is Some)
            &&& successor matches Some(account) ==> given.1.0 == account.0
            &&& successor is None ==> all_zero(given.1)
        },
{
}

/// The root of a hotkey on the subnet is answered, or that there is none. It is charged for
/// before it is read.
pub proof fn law_get_hotkey_root<R: Runtime>(
    precompile: StakingPrecompileV2<R>,
    handle: &mut Handle,
    hotkey: H256,
    netuid: u16,
    root: Option<AccountId>,
    result: EvmResult<(bool, H256)>,
)
    requires
        call_ensures(
            StakingPrecompileV2::<R>::get_hotkey_root,
            (&precompile, handle, hotkey, netuid),
            result,
        ),
        forall|answer: Option<AccountId>| #[trigger]
            call_ensures(
                R::hotkey_root,
                (&precompile.runtime, netuid, AccountId(hotkey.0)),
                answer,
            ) ==> answer == root,
    ensures
        pays(*old(handle), *final(handle), gas(old(handle).db_read_gas as int, 1)),
        if gas(old(handle).db_read_gas as int, 1) > old(handle).gas_left {
            out_of_gas(result)
        } else {
            &&& result matches Ok(given)
            &&& given.0 == (root is Some)
            &&& root matches Some(account) ==> given.1.0 == account.0
            &&& root is None ==> all_zero(given.1)
        },
{
}

/// The successor of a coldkey is answered, or that there is none. It is charged for before it is
/// read.
pub proof fn law_get_coldkey_successor<R: Runtime>(
    precompile: StakingPrecompileV2<R>,
    handle: &mut Handle,
    coldkey: H256,
    successor: Option<AccountId>,
    result: EvmResult<(bool, H256)>,
)
    requires
        call_ensures(
            StakingPrecompileV2::<R>::get_coldkey_successor,
            (&precompile, handle, coldkey),
            result,
        ),
        forall|answer: Option<AccountId>| #[trigger]
            call_ensures(
                R::coldkey_successor,
                (&precompile.runtime, AccountId(coldkey.0)),
                answer,
            ) ==> answer == successor,
    ensures
        pays(*old(handle), *final(handle), gas(old(handle).db_read_gas as int, 1)),
        if gas(old(handle).db_read_gas as int, 1) > old(handle).gas_left {
            out_of_gas(result)
        } else {
            &&& result matches Ok(given)
            &&& given.0 == (successor is Some)
            &&& successor matches Some(account) ==> given.1.0 == account.0
            &&& successor is None ==> all_zero(given.1)
        },
{
}

/// The root of a coldkey is answered, or that there is none. It is charged for before it is read.
pub proof fn law_get_coldkey_root<R: Runtime>(
    precompile: StakingPrecompileV2<R>,
    handle: &mut Handle,
    coldkey: H256,
    root: Option<AccountId>,
    result: EvmResult<(bool, H256)>,
)
    requires
        call_ensures(
            StakingPrecompileV2::<R>::get_coldkey_root,
            (&precompile, handle, coldkey),
            result,
        ),
        forall|answer: Option<AccountId>| #[trigger]
            call_ensures(
                R::coldkey_root,
                (&precompile.runtime, AccountId(coldkey.0)),
                answer,
            ) ==> answer == root,
    ensures
        pays(*old(handle), *final(handle), gas(old(handle).db_read_gas as int, 1)),
        if gas(old(handle).db_read_gas as int, 1) > old(handle).gas_left {
            out_of_gas(result)
        } else {
            &&& result matches Ok(given)
            &&& given.0 == (root is Some)
            &&& root matches Some(account) ==> given.1.0 == account.0
            &&& root is None ==> all_zero(given.1)
        },
{
}

/// The announced swap of a coldkey and its dispute are answered, each with its own block, and
/// zeros where there is none. It is charged for before it is read.
pub proof fn law_get_coldkey_swap_status<R: Runtime>(
    precompile: StakingPrecompileV2<R>,
    handle: &mut Handle,
    coldkey: H256,
    announcement: Option<(u64, [u8; 32])>,
    dispute: Option<u64>,
    result: EvmResult<(bool, u64, H256, bool, u64)>,
)
    requires
        call_ensures(
            StakingPrecompileV2::<R>::get_coldkey_swap_status,
            (&precompile, handle, coldkey),
            result,
        ),
        forall|answer: Option<(u64, [u8; 32])>| #[trigger]
            call_ensures(
                R::coldkey_swap_announcement,
                (&precompile.runtime, AccountId(coldkey.0)),
                answer,
            ) ==> answer == announcement,
        forall|answer: Option<u64>| #[trigger]
            call_ensures(
                R::coldkey_swap_dispute,
                (&precompile.runtime, AccountId(coldkey.0)),
                answer,
            ) ==> answer == dispute,
    ensures
        pays(*old(handle), *final(handle), gas(old(handle).db_read_gas as int, 2)),
        if gas(old(handle).db_read_gas as int, 2) > old(handle).gas_left {
            out_of_gas(result)
        } else {
            &&& result matches Ok(given)
            &&& given.0 == (announcement is Some)
            &&& announcement matches Some((block, hash)) ==> given.1 == block && given.2.0 == hash
            &&& announcement is None ==> given.1 == 0 && all_zero(given.2)
            &&& given.3 == (dispute is Some)
            &&& dispute is Some ==> given.4 == dispute->0
            &&& dispute is None ==> given.4 == 0
        },
{
}

/// The delay of an announced swap is answered before that of announcing it anew. It is charged
/// for before it is read.
pub proof fn law_get_coldkey_swap_delays<R: Runtime>(
    precompile: StakingPrecompileV2<R>,
    handle: &mut Handle,
    announcement: u64,
    reannouncement: u64,
    result: EvmResult<(u64, u64)>,
)
    requires
        call_ensures(
            StakingPrecompileV2::<R>::get_coldkey_swap_delays,
            (&precompile, handle),
            result,
        ),
        forall|answer: u64| #[trigger]
            call_ensures(
                R::coldkey_swap_announcement_delay,
                (&precompile.runtime,),
                answer,
            ) ==> answer == announcement,
        forall|answer: u64| #[trigger]
            call_ensures(
                R::coldkey_swap_reannouncement_delay,
                (&precompile.runtime,),
                answer,
            ) ==> answer == reannouncement,
    ensures
        pays(*old(handle), *final(handle), gas(old(handle).db_read_gas as int, 2)),
        if gas(old(handle).db_read_gas as int, 2) > old(handle).gas_left {
            out_of_gas(result)
        } else {
            &&& result matches Ok(given)
            &&& given.0 == announcement
            &&& given.1 == reannouncement
        },
{
}

/// The block answered is that of the last hotkey swap of the coldkey on the subnet. It is charged
/// for before it is read.
pub proof fn law_get_last_hotkey_swap_on_subnet<R: Runtime>(
    precompile: StakingPrecompileV2<R>,
    handle: &mut Handle,
    coldkey: H256,
    netuid: u16,
    block: u64,
    result: EvmResult<u64>,
)
    requires
        call_ensures(
            StakingPrecompileV2::<R>::get_last_hotkey_swap_on_subnet,
            (&precompile, handle, coldkey, netuid),
            result,
        ),
        forall|answer: u64| #[trigger]
            call_ensures(
                R::last_hotkey_swap_on_netuid,
                (&precompile.runtime, netuid, AccountId(coldkey.0)),
                answer,
            ) ==> answer == block,
    ensures
        pays(*old(handle), *final(handle), gas(old(handle).db_read_gas as int, 1)),
        if gas(old(handle).db_read_gas as int, 1) > old(handle).gas_left {
            out_of_gas(result)
        } else {
            &&& result matches Ok(given)
            &&& given == block
        },
{
}

/// All tokens issued are answered before all that are staked. It is charged for before it is
/// read.
pub proof fn law_get_stake_accounting<R: Runtime>(
    precompile: StakingPrecompileV2<R>,
    handle: &mut Handle,
    issuance: u64,
    stake: u64,
    result: EvmResult<(u64, u64)>,
)
    requires
        call_ensures(StakingPrecompileV2::<R>::get_stake_accounting, (&precompile, handle), result),
        forall|answer: u64| #[trigger]
            call_ensures(R::total_issuance, (&precompile.runtime,), answer) ==> answer == issuance,
        forall|answer: u64| #[trigger]
            call_ensures(R::total_stake, (&precompile.runtime,), answer) ==> answer == stake,
    ensures
        pays(*old(handle), *final(handle), gas(old(handle).db_read_gas as int, 2)),
        if gas(old(handle).db_read_gas as int, 2) > old(handle).gas_left {
            out_of_gas(result)
        } else {
            &&& result matches Ok(given)
            &&& given.0 == issuance
            &&& given.1 == stake
        },
{
}

/// The collateral of a miner is answered with each of its amounts in its place, and zeros where
/// there is none. It is charged for before it is read.
pub proof fn law_get_miner_collateral<R: Runtime>(
    precompile: StakingPrecompileV2<R>,
    handle: &mut Handle,
    netuid: u16,
    hotkey: H256,
    coldkey: H256,
    state: Option<CollateralState>,
    result: EvmResult<(bool, u64, u128, u64, u64)>,
)
    requires
        call_ensures(
            StakingPrecompileV2::<R>::get_miner_collateral,
            (&precompile, handle, netuid, hotkey, coldkey),
            result,
        ),
        forall|answer: Option<CollateralState>| #[trigger]
            call_ensures(
                R::miner_collateral,
                (&precompile.runtime, netuid, AccountId(hotkey.0), AccountId(coldkey.0)),
                answer,
            ) ==> answer == state,
    ensures
        pays(*old(handle), *final(handle), gas(old(handle).db_read_gas as int, 1)),
        if gas(old(handle).db_read_gas as int, 1) > old(handle).gas_left {
            out_of_gas(result)
        } else {
            &&& result matches Ok(given)
            &&& given.0 == (state is Some)
            &&& state matches Some(held) ==> given.1 == held.locked && given.2 == held.drain_ratio
                && given.3 == held.min_locked && given.4 == held.earned
            &&& state is None ==> given.1 == 0 && given.2 == 0 && given.3 == 0 && given.4 == 0
        },
{
}

/// All collateral of a coldkey on the subnet is answered, with the hotkeys that it is for, in
/// their order. It is charged for before it is read.
pub proof fn law_get_coldkey_collateral<R: Runtime>(
    precompile: StakingPrecompileV2<R>,
    handle: &mut Handle,
    netuid: u16,
    coldkey: H256,
    total: u64,
    hotkeys: Vec<AccountId>,
    result: EvmResult<(u64, Vec<H256>)>,
)
    requires
        call_ensures(
            StakingPrecompileV2::<R>::get_coldkey_collateral,
            (&precompile, handle, netuid, coldkey),
            result,
        ),
        forall|answer: u64| #[trigger]
            call_ensures(
                R::coldkey_miner_collateral,
                (&precompile.runtime, netuid, AccountId(coldkey.0)),
                answer,
            ) ==> answer == total,
        forall|answer: Vec<AccountId>| #[trigger]
            call_ensures(
                R::coldkey_collateral_hotkeys,
                (&precompile.runtime, netuid, AccountId(coldkey.0)),
                answer,
            ) ==> answer@ == hotkeys@,
    ensures
        pays(*old(handle), *final(handle), gas(old(handle).db_read_gas as int, 2)),
        if gas(old(handle).db_read_gas as int, 2) > old(handle).gas_left {
            out_of_gas(result)
        } else {
            &&& result matches Ok(given)
            &&& given.0 == total
            &&& given.1@.len() == hotkeys@.len()
            &&& forall|i: int|
                0 <= i < hotkeys@.len() ==> (#[trigger] given.1@[i]).0 == hotkeys@[i].0
        },
{
}

/// The lock share of a subnet is answered before its drain ratio. It is charged for before it is
/// read.
pub proof fn law_get_collateral_config<R: Runtime>(
    precompile: StakingPrecompileV2<R>,
    handle: &mut Handle,
    netuid: u16,
    share: u16,
    ratio: u128,
    result: EvmResult<(u16, u128)>,
)
    requires
        call_ensures(
            StakingPrecompileV2::<R>::get_collateral_config,
            (&precompile, handle, netuid),
            result,
        ),
        forall|answer: u16| #[trigger]
            call_ensures(
                R::collateral_lock_share,
                (&precompile.runtime, netuid),
                answer,
            ) ==> answer == share,
        forall|answer: u128| #[trigger]
            call_ensures(
                R::collateral_drain_ratio,
                (&precompile.runtime, netuid),
                answer,
            ) ==> answer == ratio,
    ensures
        pays(*old(handle), *final(handle), gas(old(handle).db_read_gas as int, 2)),
        if gas(old(handle).db_read_gas as int, 2) > old(handle).gas_left {
            out_of_gas(result)
        } else {
            &&& result matches Ok(given)
            &&& given.0 == share
            &&& given.1 == ratio
        },
{
}

/// The timescale of unlocking is answered before that of maturing. It is charged for before it is
/// read.
pub proof fn law_get_lock_rates<R: Runtime>(
    precompile: StakingPrecompileV2<R>,
    handle: &mut Handle,
    unlock: u64,
    maturity: u64,
    result: EvmResult<(u64, u64)>,
)
    requires
        call_ensures(StakingPrecompileV2::<R>::get_lock_rates, (&precompile, handle), result),
        forall|answer: u64| #[trigger]
            call_ensures(R::unlock_rate, (&precompile.runtime,), answer) ==> answer == unlock,
        forall|answer: u64| #[trigger]
            call_ensures(R::maturity_rate, (&precompile.runtime,), answer) ==> answer == maturity,
    ensures
        pays(*old(handle), *final(handle), gas(old(handle).db_read_gas as int, 2)),
        if gas(old(handle).db_read_gas as int, 2) > old(handle).gas_left {
            out_of_gas(result)
        } else {
            &&& result matches Ok(given)
            &&& given.0 == unlock
            &&& given.1 == maturity
        },
{
}

/// Whether a coldkey refuses stake that carries a lock is answered as it is. It is charged for
/// before it is read.
pub proof fn law_get_reject_locked_alpha<R: Runtime>(
    precompile: StakingPrecompileV2<R>,
    handle: &mut Handle,
    coldkey: H256,
    rejects: bool,
    result: EvmResult<bool>,
)
    requires
        call_ensures(
            StakingPrecompileV2::<R>::get_reject_locked_alpha,
            (&precompile, handle, coldkey),
            result,
        ),
        forall|answer: bool| #[trigger]
            call_ensures(
                R::account_rejects_locked_alpha,
                (&precompile.runtime, AccountId(coldkey.0)),
                answer,
            ) ==> answer == rejects,
    ensures
        pays(*old(handle), *final(handle), gas(old(handle).db_read_gas as int, 1)),
        if gas(old(handle).db_read_gas as int, 1) > old(handle).gas_left {
            out_of_gas(result)
        } else {
            &&& result matches Ok(given)
            &&& given == rejects
        },
{
}

/// The least stake of a nominator is answered as the chain has it. It is charged for before it is
/// read.
pub proof fn law_get_nominator_min_required_stake<R: Runtime>(
    precompile: StakingPrecompileV2<R>,
    handle: &mut Handle,
    stake: u64,
    result: EvmResult<U256>,
)
    requires
        call_ensures(
            StakingPrecompileV2::<R>::get_nominator_min_required_stake,
            (&precompile, handle),
            result,
        ),
        forall|answer: u64| #[trigger]
            call_ensures(
                R::get_nominator_min_required_stake,
                (&precompile.runtime,),
                answer,
            ) ==> answer == stake,
    ensures
        pays(*old(handle), *final(handle), gas(old(handle).db_read_gas as int, 2)),
        if gas(old(handle).db_read_gas as int, 2) > old(handle).gas_left {
            out_of_gas(result)
        } else {
            &&& result matches Ok(given)
            &&& given@ == stake
        },
{
}

/// The default least stake is answered as the chain has it. It is charged for before it is read.
pub proof fn law_get_default_min_stake<R: Runtime>(
    precompile: StakingPrecompileV2<R>,
    handle: &mut Handle,
    stake: u64,
    result: EvmResult<U256>,
)
    requires
        call_ensures(
            StakingPrecompileV2::<R>::get_default_min_stake,
            (&precompile, handle),
            result,
        ),
        forall|answer: u64| #[trigger]
            call_ensures(R::default_min_stake, (&precompile.runtime,), answer) ==> answer == stake,
    ensures
        pays(*old(handle), *final(handle), gas(old(handle).db_read_gas as int, 1)),
        if gas(old(handle).db_read_gas as int, 1) > old(handle).gas_left {
            out_of_gas(result)
        } else {
            &&& result matches Ok(given)
            &&& given@ == stake
        },
{
}

/// The stake answered is that of the coldkey on the hotkey of the subnet. It is charged for
/// before it is read.
pub proof fn law_get_stake<R: Runtime>(
    precompile: StakingPrecompileV2<R>,
    handle: &mut Handle,
    hotkey: H256,
    coldkey: H256,
    netuid: U256,
    stake: u64,
    result: EvmResult<U256>,
)
    requires
        call_ensures(
            StakingPrecompileV2::<R>::get_stake,
            (&precompile, handle, hotkey, coldkey, netuid),
            result,
        ),
        forall|answer: u64| #[trigger]
            call_ensures(
                R::get_stake_for_hotkey_and_coldkey_on_subnet,
                (&precompile.runtime, AccountId(hotkey.0), AccountId(coldkey.0), netuid@ as u16),
                answer,
            ) ==> answer == stake,
    ensures
        pays(*old(handle), *final(handle), gas(old(handle).db_read_gas as int, 7)),
        if gas(old(handle).db_read_gas as int, 7) > old(handle).gas_left {
            out_of_gas(result)
        } else if netuid@ > 0xffff {
            stopped(result, "the value is outside of u16 bounds")
        } else {
            &&& result matches Ok(given)
            &&& given@ == stake
        },
{
}

/// The alpha answered is all of it on the hotkey of the subnet. It is charged for before it is
/// read.
pub proof fn law_get_total_alpha_staked<R: Runtime>(
    precompile: StakingPrecompileV2<R>,
    handle: &mut Handle,
    hotkey: H256,
    netuid: U256,
    stake: u64,
    result: EvmResult<U256>,
)
    requires
        call_ensures(
            StakingPrecompileV2::<R>::get_total_alpha_staked,
            (&precompile, handle, hotkey, netuid),
            result,
        ),
        forall|answer: u64| #[trigger]
            call_ensures(
                R::get_stake_for_hotkey_on_subnet,
                (&precompile.runtime, AccountId(hotkey.0), netuid@ as u16),
                answer,
            ) ==> answer == stake,
    ensures
        pays(*old(handle), *final(handle), gas(old(handle).db_read_gas as int, 2)),
        if gas(old(handle).db_read_gas as int, 2) > old(handle).gas_left {
            out_of_gas(result)
        } else if netuid@ > 0xffff {
            stopped(result, "the value is outside of u16 bounds")
        } else {
            &&& result matches Ok(given)
            &&& given@ == stake
        },
{
}

} // verus!
