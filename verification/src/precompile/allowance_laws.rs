//! What the calls on allowances do and answer, on a chain that gives one answer only.
use crate::precompile::allowances::{AllowancesStorage, Grants};
use crate::precompile::call::{Account, Dispatch, RuntimeCall, SubtensorCall};
use crate::precompile::dispatch_laws::{reverts, stopped};
use crate::precompile::failure::{EvmResult, PrecompileFailure};
use crate::precompile::handle::Handle;
use crate::precompile::runtime::Runtime;
use crate::precompile::stake_laws::pays_twice;
use crate::precompile::staking_v2::StakingPrecompileV2;
use crate::precompile::view_laws::{gas, out_of_gas, pays};
use crate::primitives::{AccountId, H160, H256};
use crate::u256::U256;
use vstd::prelude::*;

verus! {

/// Who allows, and to whom, on which subnet and under which of its registrations.
pub type Slot = (H160, (H160, u16, u64));

/// What is allowed: nothing where nothing is stored.
pub open spec fn allowed(grants: Grants, slot: Slot) -> int {
    if grants.contains_key(slot) {
        grants[slot] as int
    } else {
        0
    }
}

/// Whether `after` is `before` with `amount` allowed in one slot, where an amount of zero is not
/// stored.
pub open spec fn sets(before: Grants, after: Grants, slot: Slot, amount: int) -> bool {
    &&& after.contains_key(slot) <==> amount != 0
    &&& amount != 0 ==> after[slot] == amount
    &&& forall|other: Slot|
        other != slot ==> (#[trigger] after.contains_key(other) <==> before.contains_key(other))
    &&& forall|other: Slot|
        other != slot && before.contains_key(other) ==> #[trigger] after[other] == before[other]
}

/// The largest number that the EVM has.
pub open spec fn evm_max() -> int {
    0xffff_ffff_ffff_ffff_ffff_ffff_ffff_ffff_ffff_ffff_ffff_ffff_ffff_ffff_ffff_ffffint
}

/// Approving sets the allowance to the amount, whatever it was.
pub proof fn law_storage_approve(
    storage: &mut AllowancesStorage,
    approver: H160,
    key: (H160, u16, u64),
    amount: U256,
)
    requires
        call_ensures(AllowancesStorage::approve, (storage, approver, key, amount), ()),
    ensures
        sets(
            old(storage)@,
            final(storage)@,
            (approver, key),
            amount@ as int,
        ),
{
}

/// Lowering an allowance takes the amount from it, down to nothing.
pub proof fn law_storage_decrease(
    storage: &mut AllowancesStorage,
    approver: H160,
    key: (H160, u16, u64),
    amount: U256,
)
    requires
        call_ensures(AllowancesStorage::decrease, (storage, approver, key, amount), ()),
    ensures
        sets(
            old(storage)@,
            final(storage)@,
            (approver, key),
            if allowed(old(storage)@, (approver, key)) < amount@ {
                0
            } else {
                allowed(old(storage)@, (approver, key)) - amount@
            },
        ),
{
}

/// Raising an allowance by something adds the amount to it, up to the largest number that the EVM
/// has.
pub proof fn law_storage_increase(
    storage: &mut AllowancesStorage,
    approver: H160,
    key: (H160, u16, u64),
    amount: U256,
)
    requires
        call_ensures(AllowancesStorage::increase, (storage, approver, key, amount), ()),
        amount@ > 0,
    ensures
        sets(
            old(storage)@,
            final(storage)@,
            (approver, key),
            if allowed(old(storage)@, (approver, key)) + amount@ > evm_max() {
                evm_max()
            } else {
                allowed(old(storage)@, (approver, key)) + amount@
            },
        ),
{
}

/// What is stored for a slot is what the storage holds there, and it reads as nothing where there is
/// none.
pub proof fn law_storage_reads(
    storage: AllowancesStorage,
    approver: H160,
    key: (H160, u16, u64),
    stored: Option<U256>,
    amount: U256,
)
    requires
        call_ensures(AllowancesStorage::stored, (&storage, approver, key), stored),
        call_ensures(AllowancesStorage::get, (&storage, approver, key), amount),
    ensures
        stored is Some <==> storage@.contains_key((approver, key)),
        stored matches Some(held) ==> held@ == storage@[(approver, key)] && held@ == amount@,
        stored is None ==> amount@ == 0,
        amount@ == allowed(storage@, (approver, key)),
{
}

/// What was put into a slot is what is then read there; every other slot reads as before.
pub proof fn law_storage_insert(
    storage: &mut AllowancesStorage,
    approver: H160,
    key: (H160, u16, u64),
    amount: U256,
    other: Slot,
    before: U256,
    after: U256,
)
    requires
        call_ensures(AllowancesStorage::get, (&*old(storage), other.0, other.1), before),
        call_ensures(AllowancesStorage::insert, (storage, approver, key, amount), ()),
        call_ensures(AllowancesStorage::get, (&*final(storage), other.0, other.1), after),
    ensures
        other == (approver, key) ==> after@ == amount@,
        other != (approver, key) ==> after@ == before@,
{
}

/// What was removed from a slot is no longer there; every other slot reads as before.
pub proof fn law_storage_remove(
    storage: &mut AllowancesStorage,
    approver: H160,
    key: (H160, u16, u64),
    other: Slot,
    before: U256,
    after: U256,
)
    requires
        call_ensures(AllowancesStorage::get, (&*old(storage), other.0, other.1), before),
        call_ensures(AllowancesStorage::remove, (storage, approver, key), ()),
        call_ensures(AllowancesStorage::get, (&*final(storage), other.0, other.1), after),
    ensures
        !final(storage)@.contains_key((approver, key)),
        other == (approver, key) ==> after@ == 0,
        other != (approver, key) ==> after@ == before@,
{
}

/// Spending takes the amount from the allowance where that covers it, and is otherwise refused with
/// nothing changed.
pub proof fn law_storage_consume(
    storage: &mut AllowancesStorage,
    approver: H160,
    key: (H160, u16, u64),
    amount: U256,
    spent: EvmResult<()>,
)
    requires
        call_ensures(AllowancesStorage::consume, (storage, approver, key, amount), spent),
    ensures
        ({
            let held = allowed(old(storage)@, (approver, key));
            if amount@ <= held {
                spent is Ok && sets(
                    old(storage)@,
                    final(storage)@,
                    (approver, key),
                    held - amount@,
                )
            } else {
                reverts(spent, "trying to spend more than allowed") && final(storage)@ == old(
                    storage,
                )@
            }
        }),
{
}

/// A new storage allows nothing.
pub proof fn law_storage_new(storage: AllowancesStorage, slot: Slot)
    requires
        call_ensures(AllowancesStorage::new, (), storage),
    ensures
        !storage@.contains_key(slot),
{
}

/// Approving sets what the caller lets the spender transfer on the subnet, under its current
/// registration, to the amount. One read and one write are charged for before.
pub proof fn law_approve<R: Runtime>(
    precompile: &mut StakingPrecompileV2<R>,
    handle: &mut Handle,
    spender: H160,
    origin_netuid: U256,
    amount_alpha: U256,
    counter: u64,
    result: EvmResult<()>,
)
    requires
        call_ensures(
            StakingPrecompileV2::<R>::approve,
            (precompile, handle, spender, origin_netuid, amount_alpha),
            result,
        ),
        forall|answer: u64| #[trigger]
            call_ensures(
                R::get_registered_subnet_counter,
                (&old(precompile).runtime, origin_netuid@ as u16),
                answer,
            ) ==> answer == counter,
    ensures
        final(precompile).runtime == old(precompile).runtime,
        ({
            let before = *old(handle);
            let after = *final(handle);
            let grants = old(precompile).allowances@;
            let left = final(precompile).allowances@;
            let slot = (before.caller, (spender, origin_netuid@ as u16, counter));
            let held = allowed(grants, slot);
            let reads = gas(before.db_read_gas as int, 1);
            let writes = gas(before.db_write_gas as int, 1);
            &&& pays_twice(before, after, reads, writes, result)
            &&& if reads + writes > before.gas_left {
                left == grants
            } else if origin_netuid@ > 0xffff {
                stopped(result, "the value is outside of u16 bounds") && left == grants
            } else {
                result is Ok && sets(grants, left, slot, amount_alpha@ as int)
            }
        }),
{
}

/// Raising an allowance adds to what the caller lets the spender transfer on the subnet, under its
/// current registration. Raising it by nothing does nothing, and is not charged for.
pub proof fn law_increase_allowance<R: Runtime>(
    precompile: &mut StakingPrecompileV2<R>,
    handle: &mut Handle,
    spender: H160,
    origin_netuid: U256,
    amount_alpha_increase: U256,
    counter: u64,
    result: EvmResult<()>,
)
    requires
        call_ensures(
            StakingPrecompileV2::<R>::increase_allowance,
            (precompile, handle, spender, origin_netuid, amount_alpha_increase),
            result,
        ),
        forall|answer: u64| #[trigger]
            call_ensures(
                R::get_registered_subnet_counter,
                (&old(precompile).runtime, origin_netuid@ as u16),
                answer,
            ) ==> answer == counter,
    ensures
        final(precompile).runtime == old(precompile).runtime,
        ({
            let before = *old(handle);
            let after = *final(handle);
            let grants = old(precompile).allowances@;
            let left = final(precompile).allowances@;
            let slot = (before.caller, (spender, origin_netuid@ as u16, counter));
            let held = allowed(grants, slot);
            let reads = gas(before.db_read_gas as int, 2);
            let writes = gas(before.db_write_gas as int, 1);
            if amount_alpha_increase@ == 0 {
                result is Ok && after == before && left == grants
            } else {
                &&& pays_twice(before, after, reads, writes, result)
                &&& if reads + writes > before.gas_left {
                    left == grants
                } else if origin_netuid@ > 0xffff {
                    stopped(result, "the value is outside of u16 bounds") && left == grants
                } else {
                    result is Ok && sets(grants, left, slot, if held + amount_alpha_increase@ > evm_max() {
                        evm_max()
                    } else {
                        held + amount_alpha_increase@
                    })
                }
            }
        }),
{
}

/// Lowering an allowance takes from what the caller lets the spender transfer on the subnet, under its
/// current registration. Lowering it by nothing does nothing, and is not charged for.
pub proof fn law_decrease_allowance<R: Runtime>(
    precompile: &mut StakingPrecompileV2<R>,
    handle: &mut Handle,
    spender: H160,
    origin_netuid: U256,
    amount_alpha_decrease: U256,
    counter: u64,
    result: EvmResult<()>,
)
    requires
        call_ensures(
            StakingPrecompileV2::<R>::decrease_allowance,
            (precompile, handle, spender, origin_netuid, amount_alpha_decrease),
            result,
        ),
        forall|answer: u64| #[trigger]
            call_ensures(
                R::get_registered_subnet_counter,
                (&old(precompile).runtime, origin_netuid@ as u16),
                answer,
            ) ==> answer == counter,
    ensures
        final(precompile).runtime == old(precompile).runtime,
        ({
            let before = *old(handle);
            let after = *final(handle);
            let grants = old(precompile).allowances@;
            let left = final(precompile).allowances@;
            let slot = (before.caller, (spender, origin_netuid@ as u16, counter));
            let held = allowed(grants, slot);
            let reads = gas(before.db_read_gas as int, 2);
            let writes = gas(before.db_write_gas as int, 1);
            if amount_alpha_decrease@ == 0 {
                result is Ok && after == before && left == grants
            } else {
                &&& pays_twice(before, after, reads, writes, result)
                &&& if reads + writes > before.gas_left {
                    left == grants
                } else if origin_netuid@ > 0xffff {
                    stopped(result, "the value is outside of u16 bounds") && left == grants
                } else {
                    result is Ok && sets(grants, left, slot, if held < amount_alpha_decrease@ {
                        0
                    } else {
                        held - amount_alpha_decrease@
                    })
                }
            }
        }),
{
}

/// The allowance answered is what the source lets the spender transfer on the subnet, under its
/// current registration. It is charged for before it is read.
pub proof fn law_allowance<R: Runtime>(
    precompile: StakingPrecompileV2<R>,
    handle: &mut Handle,
    source: H160,
    spender: H160,
    origin_netuid: U256,
    counter: u64,
    result: EvmResult<U256>,
)
    requires
        call_ensures(
            StakingPrecompileV2::<R>::allowance,
            (&precompile, handle, source, spender, origin_netuid),
            result,
        ),
        forall|answer: u64| #[trigger]
            call_ensures(
                R::get_registered_subnet_counter,
                (&precompile.runtime, origin_netuid@ as u16),
                answer,
            ) ==> answer == counter,
    ensures
        pays(*old(handle), *final(handle), gas(old(handle).db_read_gas as int, 2)),
        if gas(old(handle).db_read_gas as int, 2) > old(handle).gas_left {
            out_of_gas(result)
        } else if origin_netuid@ > 0xffff {
            stopped(result, "the value is outside of u16 bounds")
        } else {
            &&& result matches Ok(given)
            &&& given@ == allowed(
                precompile.allowances@,
                (source, (spender, origin_netuid@ as u16, counter)),
            )
        },
{
}

/// The counter of a subnet is the one that the chain has for it.
pub proof fn law_current_subnet_counter<R: Runtime>(
    precompile: StakingPrecompileV2<R>,
    netuid: u16,
    counter: u64,
    result: u64,
)
    requires
        call_ensures(
            StakingPrecompileV2::<R>::current_subnet_counter,
            (&precompile, netuid),
            result,
        ),
        forall|answer: u64| #[trigger]
            call_ensures(
                R::get_registered_subnet_counter,
                (&precompile.runtime, netuid),
                answer,
            ) ==> answer == counter,
    ensures
        result == counter,
{
}

/// A new precompile allows nothing, and stands on the chain that it was given.
pub proof fn law_new_precompile<R: Runtime>(
    runtime: R,
    precompile: StakingPrecompileV2<R>,
    slot: Slot,
)
    requires
        call_ensures(StakingPrecompileV2::<R>::new, (runtime,), precompile),
    ensures
        precompile.runtime == runtime,
        !precompile.allowances@.contains_key(slot),
{
}

/// Whether spending `amount` out of a slot ended as it should: it is charged for, two reads and a
/// write; it takes the amount from the allowance where that covers it, and is otherwise refused with
/// nothing changed. Spending nothing does nothing, and is not charged for.
pub open spec fn spends<T>(
    before: Handle,
    after: Handle,
    grants: Grants,
    left: Grants,
    slot: Slot,
    amount: int,
    result: EvmResult<T>,
) -> bool {
    let held = allowed(grants, slot);
    let reads = gas(before.db_read_gas as int, 2);
    let writes = gas(before.db_write_gas as int, 1);
    if amount == 0 {
        result is Ok && after == before && left == grants
    } else {
        &&& pays_twice(before, after, reads, writes, result)
        &&& if reads + writes > before.gas_left {
            left == grants
        } else if amount > held {
            reverts(result, "trying to spend more than allowed") && left == grants
        } else {
            result is Ok && sets(grants, left, slot, held - amount)
        }
    }
}

/// Spending takes from what the approver lets the spender transfer on the subnet, under its current
/// registration, and from nothing else.
pub proof fn law_try_consume_allowance<R: Runtime>(
    precompile: &mut StakingPrecompileV2<R>,
    handle: &mut Handle,
    approver: H160,
    spender: H160,
    netuid: u16,
    amount: U256,
    counter: u64,
    result: EvmResult<()>,
)
    requires
        call_ensures(
            StakingPrecompileV2::<R>::try_consume_allowance,
            (precompile, handle, approver, spender, netuid, amount),
            result,
        ),
        forall|answer: u64| #[trigger]
            call_ensures(
                R::get_registered_subnet_counter,
                (&old(precompile).runtime, netuid),
                answer,
            ) ==> answer == counter,
    ensures
        final(precompile).runtime == old(precompile).runtime,
        spends(
            *old(handle),
            *final(handle),
            old(precompile).allowances@,
            final(precompile).allowances@,
            (approver, (spender, netuid, counter)),
            amount@ as int,
            result,
        ),
{
}

/// A transfer in the name of another spends what the source lets the caller transfer on the origin
/// subnet, and then asks, in the name of the source, for exactly that transfer to the account that
/// the destination maps to. A subnet out of range is refused before anything is charged or spent.
pub proof fn law_transfer_stake_from<R: Runtime>(
    precompile: &mut StakingPrecompileV2<R>,
    handle: &mut Handle,
    source_address: H160,
    destination_address: H160,
    hotkey: H256,
    origin_netuid: U256,
    destination_netuid: U256,
    amount_alpha: U256,
    counter: u64,
    result: EvmResult<Dispatch>,
)
    requires
        call_ensures(
            StakingPrecompileV2::<R>::transfer_stake_from,
            (
                precompile,
                handle,
                source_address,
                destination_address,
                hotkey,
                origin_netuid,
                destination_netuid,
                amount_alpha,
            ),
            result,
        ),
        forall|answer: u64| #[trigger]
            call_ensures(
                R::get_registered_subnet_counter,
                (&old(precompile).runtime, origin_netuid@ as u16),
                answer,
            ) ==> answer == counter,
    ensures
        final(precompile).runtime == old(precompile).runtime,
        if origin_netuid@ > 0xffff || destination_netuid@ > 0xffff {
            &&& stopped(result, "the value is outside of u16 bounds")
            &&& *final(handle) == *old(handle)
            &&& final(precompile).allowances@ == old(precompile).allowances@
        } else {
            spends(
                *old(handle),
                *final(handle),
                old(precompile).allowances@,
                final(precompile).allowances@,
                (source_address, (old(handle).caller, origin_netuid@ as u16, counter)),
                amount_alpha@ as int,
                result,
            )
        },
        result is Ok ==> result == Ok::<Dispatch, PrecompileFailure>(
            Dispatch {
                signer: source_address,
                call: RuntimeCall::Subtensor(
                    SubtensorCall::TransferStake {
                        destination_coldkey: Account::Mapped(destination_address),
                        hotkey: AccountId(hotkey.0),
                        origin_netuid: origin_netuid@ as u16,
                        destination_netuid: destination_netuid@ as u16,
                        alpha_amount: if amount_alpha@ > 0xffff_ffff_ffff_ffff {
                            0xffff_ffff_ffff_ffff
                        } else {
                            amount_alpha@ as u64
                        },
                    },
                ),
            },
        ),
{
}

} // verus!
