//! What the views of locks answer, on a chain that gives one answer only.
use crate::precompile::dispatch_laws::{reverts, stopped};
use crate::precompile::failure::EvmResult;
use crate::precompile::handle::Handle;
use crate::precompile::locks::{bucket_totals, conviction_in, locked_in};
use crate::precompile::runtime::{LockState, Runtime};
use crate::precompile::staking_v2::StakingPrecompileV2;
use crate::precompile::view_laws::{all_zero, gas, out_of_gas, pays};
use crate::primitives::{AccountId, H256};
use crate::u256::U256;
use vstd::prelude::*;

verus! {

/// How a chain rolls a lock forward: from the lock, the block, the rates of unlocking and maturing,
/// whether it is the subnet owner's, and whether it is perpetual.
pub type Roll = spec_fn(LockState, u64, u64, u64, bool, bool) -> LockState;

/// Whether the chain rolls locks forward by `roll`.
pub open spec fn rolls_by<R: Runtime>(runtime: R, roll: Roll) -> bool {
    forall|
        lock: LockState,
        now: u64,
        unlock_rate: u64,
        maturity_rate: u64,
        owner_lock: bool,
        perpetual_lock: bool,
        later: LockState,
    | #[trigger]
        call_ensures(
            R::roll_forward_lock,
            (&runtime, lock, now, unlock_rate, maturity_rate, owner_lock, perpetual_lock),
            later,
        ) ==> later == roll(lock, now, unlock_rate, maturity_rate, owner_lock, perpetual_lock)
}

/// The alpha of a lock, and none where there is no lock.
pub open spec fn alpha_of(lock: Option<LockState>) -> int {
    match lock {
        Some(lock) => lock.locked_mass as int,
        None => 0,
    }
}

/// The bits of the conviction of a lock, and none where there is no lock.
pub open spec fn conviction_of(lock: Option<LockState>) -> int {
    match lock {
        Some(lock) => lock.conviction as int,
        None => 0,
    }
}

/// What `roll` makes of a bucket, and nothing where the bucket is empty.
pub open spec fn bucket_by(
    roll: Roll,
    bucket: Option<LockState>,
    now: u64,
    unlock_rate: u64,
    maturity_rate: u64,
    owner_lock: bool,
    perpetual_lock: bool,
) -> Option<LockState> {
    match bucket {
        Some(lock) => Some(
            roll(lock, now, unlock_rate, maturity_rate, owner_lock, perpetual_lock),
        ),
        None => None,
    }
}

/// A coldkey's lock is answered as the chain rolls it forward to the current block: by the owner's
/// rule exactly where its hotkey is that of the subnet's owner, and as a perpetual one exactly where
/// the coldkey chose that it does not decay. It is charged for before it is read.
pub proof fn law_get_coldkey_lock<R: Runtime>(
    precompile: StakingPrecompileV2<R>,
    handle: &mut Handle,
    coldkey: H256,
    netuid: U256,
    decays: Option<bool>,
    found: Option<(AccountId, LockState)>,
    now: u64,
    owner: AccountId,
    unlock_rate: u64,
    maturity_rate: u64,
    roll: Roll,
    gone: spec_fn(LockState) -> bool,
    result: EvmResult<(bool, H256, U256, u128, bool)>,
)
    requires
        call_ensures(
            StakingPrecompileV2::<R>::get_coldkey_lock,
            (&precompile, handle, coldkey, netuid),
            result,
        ),
        forall|answer: Option<bool>| #[trigger]
            call_ensures(
                R::decaying_lock,
                (&precompile.runtime, AccountId(coldkey.0), netuid@ as u16),
                answer,
            ) ==> answer == decays,
        forall|answer: Option<(AccountId, LockState)>| #[trigger]
            call_ensures(
                R::first_lock,
                (&precompile.runtime, AccountId(coldkey.0), netuid@ as u16),
                answer,
            ) ==> answer == found,
        forall|answer: u64| #[trigger]
            call_ensures(R::get_current_block_as_u64, (&precompile.runtime,), answer) ==> answer
                == now,
        forall|answer: AccountId| #[trigger]
            call_ensures(R::subnet_owner_hotkey, (&precompile.runtime, netuid@ as u16), answer)
                ==> answer == owner,
        forall|answer: u64| #[trigger]
            call_ensures(R::unlock_rate, (&precompile.runtime,), answer) ==> answer == unlock_rate,
        forall|answer: u64| #[trigger]
            call_ensures(R::maturity_rate, (&precompile.runtime,), answer) ==> answer
                == maturity_rate,
        rolls_by(precompile.runtime, roll),
        forall|lock: LockState, answer: bool| #[trigger]
            call_ensures(R::lock_is_zero, (&precompile.runtime, lock), answer) ==> answer == gone(
                lock,
            ),
    ensures
        pays(*old(handle), *final(handle), gas(old(handle).db_read_gas as int, 6)),
        if gas(old(handle).db_read_gas as int, 6) > old(handle).gas_left {
            out_of_gas(result)
        } else if netuid@ > 0xffff {
            stopped(result, "the value is outside of u16 bounds")
        } else {
            &&& result matches Ok(given)
            &&& given.4 == (decays == Some(false))
            &&& found is None ==> {
                &&& !given.0
                &&& all_zero(given.1)
                &&& given.2@ == 0
                &&& given.3 == 0
            }
            &&& found matches Some((hotkey, lock)) ==> {
                let later = roll(
                    lock,
                    now,
                    unlock_rate,
                    maturity_rate,
                    hotkey == owner,
                    decays == Some(false),
                );
                &&& given.0 == !gone(later)
                &&& given.1.0 == hotkey.0
                &&& given.2@ == later.locked_mass
                &&& given.3 == later.conviction
            }
        },
{
}

/// What all buckets hold, where there are two of them or four.
proof fn lemma_few_buckets(buckets: Seq<Option<LockState>>)
    ensures
        buckets.len() == 2 ==> locked_in(buckets) == alpha_of(buckets[0]) + alpha_of(buckets[1]),
        buckets.len() == 2 ==> conviction_in(buckets) == conviction_of(buckets[0]) + conviction_of(
            buckets[1],
        ),
        buckets.len() == 4 ==> locked_in(buckets) == alpha_of(buckets[0]) + alpha_of(buckets[1])
            + alpha_of(buckets[2]) + alpha_of(buckets[3]),
        buckets.len() == 4 ==> conviction_in(buckets) == conviction_of(buckets[0]) + conviction_of(
            buckets[1],
        ) + conviction_of(buckets[2]) + conviction_of(buckets[3]),
{
    reveal_with_fuel(locked_in, 5);
    reveal_with_fuel(conviction_in, 5);
}

/// The locks on a hotkey are answered as the sum of its buckets, each as the chain rolls it forward
/// to the current block: the hotkey's own by the ordinary rule, and those of the subnet's owner by
/// the owner's rule, which count exactly where the hotkey is the owner's. Sums stop at the top of
/// their range. They are charged for before they are read.
pub proof fn law_get_hotkey_lock<R: Runtime>(
    precompile: StakingPrecompileV2<R>,
    handle: &mut Handle,
    hotkey: H256,
    netuid: U256,
    perpetual: Option<LockState>,
    decaying: Option<LockState>,
    owner_perpetual: Option<LockState>,
    owner_decaying: Option<LockState>,
    now: u64,
    owner: AccountId,
    unlock_rate: u64,
    maturity_rate: u64,
    roll: Roll,
    result: EvmResult<(bool, U256, u128)>,
)
    requires
        call_ensures(
            StakingPrecompileV2::<R>::get_hotkey_lock,
            (&precompile, handle, hotkey, netuid),
            result,
        ),
        forall|answer: Option<LockState>| #[trigger]
            call_ensures(
                R::hotkey_lock,
                (&precompile.runtime, netuid@ as u16, AccountId(hotkey.0)),
                answer,
            ) ==> answer == perpetual,
        forall|answer: Option<LockState>| #[trigger]
            call_ensures(
                R::decaying_hotkey_lock,
                (&precompile.runtime, netuid@ as u16, AccountId(hotkey.0)),
                answer,
            ) ==> answer == decaying,
        forall|answer: Option<LockState>| #[trigger]
            call_ensures(R::owner_lock, (&precompile.runtime, netuid@ as u16), answer) ==> answer
                == owner_perpetual,
        forall|answer: Option<LockState>| #[trigger]
            call_ensures(R::decaying_owner_lock, (&precompile.runtime, netuid@ as u16), answer)
                ==> answer == owner_decaying,
        forall|answer: u64| #[trigger]
            call_ensures(R::get_current_block_as_u64, (&precompile.runtime,), answer) ==> answer
                == now,
        forall|answer: AccountId| #[trigger]
            call_ensures(R::subnet_owner_hotkey, (&precompile.runtime, netuid@ as u16), answer)
                ==> answer == owner,
        forall|answer: u64| #[trigger]
            call_ensures(R::unlock_rate, (&precompile.runtime,), answer) ==> answer == unlock_rate,
        forall|answer: u64| #[trigger]
            call_ensures(R::maturity_rate, (&precompile.runtime,), answer) ==> answer
                == maturity_rate,
        rolls_by(precompile.runtime, roll),
    ensures
        pays(*old(handle), *final(handle), gas(old(handle).db_read_gas as int, 8)),
        if gas(old(handle).db_read_gas as int, 8) > old(handle).gas_left {
            out_of_gas(result)
        } else if netuid@ > 0xffff {
            stopped(result, "the value is outside of u16 bounds")
        } else {
            let own = bucket_by(roll, perpetual, now, unlock_rate, maturity_rate, false, true);
            let own_decaying = bucket_by(
                roll,
                decaying,
                now,
                unlock_rate,
                maturity_rate,
                false,
                false,
            );
            let owners = bucket_by(
                roll,
                owner_perpetual,
                now,
                unlock_rate,
                maturity_rate,
                true,
                true,
            );
            let owners_decaying = bucket_by(
                roll,
                owner_decaying,
                now,
                unlock_rate,
                maturity_rate,
                true,
                false,
            );
            let counts: int = if hotkey.0 == owner.0 {
                1
            } else {
                0
            };
            let alpha = alpha_of(own) + alpha_of(own_decaying) + counts * (alpha_of(owners)
                + alpha_of(owners_decaying));
            let conviction = conviction_of(own) + conviction_of(own_decaying) + counts * (
            conviction_of(owners) + conviction_of(owners_decaying));
            &&& result matches Ok(given)
            &&& given.0 == (alpha > 0 || conviction > 0)
            &&& given.1@ == if alpha > 0xffff_ffff_ffff_ffff {
                0xffff_ffff_ffff_ffff
            } else {
                alpha
            }
            &&& given.2 == if conviction > 0xffff_ffff_ffff_ffff_ffff_ffff_ffff_ffff {
                0xffff_ffff_ffff_ffff_ffff_ffff_ffff_ffff
            } else {
                conviction
            }
        },
{
    assert forall|buckets: Seq<Option<LockState>>| buckets.len() == 2 implies #[trigger] locked_in(
        buckets,
    ) == alpha_of(buckets[0]) + alpha_of(buckets[1]) by {
        lemma_few_buckets(buckets);
    }
    assert forall|buckets: Seq<Option<LockState>>| buckets.len() == 2 implies #[trigger]
        conviction_in(buckets) == conviction_of(buckets[0]) + conviction_of(buckets[1]) by {
        lemma_few_buckets(buckets);
    }
    assert forall|buckets: Seq<Option<LockState>>| buckets.len() == 4 implies #[trigger] locked_in(
        buckets,
    ) == alpha_of(buckets[0]) + alpha_of(buckets[1]) + alpha_of(buckets[2]) + alpha_of(
        buckets[3],
    ) by {
        lemma_few_buckets(buckets);
    }
    assert forall|buckets: Seq<Option<LockState>>| buckets.len() == 4 implies #[trigger]
        conviction_in(buckets) == conviction_of(buckets[0]) + conviction_of(buckets[1])
            + conviction_of(buckets[2]) + conviction_of(buckets[3]) by {
        lemma_few_buckets(buckets);
    }
}

/// Adding one more bucket adds its alpha and its conviction to the totals of the others, up to the
/// top of the range; no buckets hold nothing.
pub proof fn law_bucket_totals(
    fewer: Vec<Option<LockState>>,
    more: Vec<Option<LockState>>,
    lock: Option<LockState>,
    before: (u64, u128),
    after: (u64, u128),
)
    requires
        call_ensures(bucket_totals, (&fewer,), before),
        call_ensures(bucket_totals, (&more,), after),
        more@ == fewer@.push(lock),
    ensures
        fewer@.len() == 0 ==> before == (0u64, 0u128),
        after.0 == if before.0 + alpha_of(lock) > 0xffff_ffff_ffff_ffff {
            0xffff_ffff_ffff_ffff
        } else {
            before.0 + alpha_of(lock)
        },
        after.1 == if before.1 + conviction_of(lock) > 0xffff_ffff_ffff_ffff_ffff_ffff_ffff_ffff {
            0xffff_ffff_ffff_ffff_ffff_ffff_ffff_ffff
        } else {
            before.1 + conviction_of(lock)
        },
{
    assert(more@.drop_last() =~= fewer@);
}

/// Convictions are answered one for each hotkey asked for, in the order asked for. More than 64
/// hotkeys are refused before anything is charged; then the list is charged for, 64 gas for each of
/// its hotkeys; a hotkey that occurs twice is refused before the reads are charged for, eight for
/// each.
pub proof fn law_get_hotkey_convictions<R: Runtime>(
    precompile: StakingPrecompileV2<R>,
    handle: &mut Handle,
    netuid: U256,
    hotkeys: Vec<H256>,
    conviction: spec_fn(AccountId) -> u128,
    result: EvmResult<Vec<u128>>,
)
    requires
        call_ensures(
            StakingPrecompileV2::<R>::get_hotkey_convictions,
            (&precompile, handle, netuid, hotkeys),
            result,
        ),
        forall|hotkey: AccountId, answer: u128| #[trigger]
            call_ensures(
                R::hotkey_conviction,
                (&precompile.runtime, hotkey, netuid@ as u16),
                answer,
            ) ==> answer == conviction(hotkey),
    ensures
        ({
            let before = *old(handle);
            let after = *final(handle);
            let count = hotkeys@.len() as int;
            let reads = gas(before.db_read_gas as int, 8 * count);
            if count > 64 {
                reverts(result, "hotkeys: Value is too large for length") && after == before
            } else if 64 * count > before.gas_left {
                out_of_gas(result) && after == before
            } else if netuid@ > 0xffff {
                stopped(result, "the value is outside of u16 bounds") && pays(
                    before,
                    after,
                    64 * count,
                )
            } else if exists|i: int, j: int|
                0 <= i < j < count && hotkeys@[i].0 == hotkeys@[j].0 {
                reverts(result, "duplicate conviction hotkey") && pays(before, after, 64 * count)
            } else if reads > before.gas_left - 64 * count {
                out_of_gas(result) && pays(before, after, 64 * count)
            } else {
                &&& pays(before, after, 64 * count + reads)
                &&& result matches Ok(given)
                &&& given@.len() == count
                &&& forall|i: int|
                    0 <= i < count ==> #[trigger] given@[i] == conviction(AccountId(hotkeys@[i].0))
            }
        }),
{
    if exists|i: int, j: int| 0 <= i < j < hotkeys@.len() && hotkeys@[i].0 == hotkeys@[j].0 {
        let (i, j) = choose|i: int, j: int|
            0 <= i < j < hotkeys@.len() && hotkeys@[i].0 == hotkeys@[j].0;
        assert(hotkeys@[i] == hotkeys@[j]);
        assert(!hotkeys@.no_duplicates());
    } else {
        assert(hotkeys@.no_duplicates());
    }
}

} // verus!
