//! Adding up the locks on a hotkey.
use crate::precompile::convert::add_convictions;
use crate::precompile::runtime::{LockState, Runtime};
use crate::primitives::AccountId;
use crate::u256::saturated_u64;
use vstd::prelude::*;

verus! {

/// Whether `stored` are the buckets of locks on a hotkey of a subnet: the perpetual and the
/// decaying one, and then, where the hotkey is the subnet owner's, the owner's perpetual and decaying one.
pub open spec fn stored_buckets<R: Runtime>(
    runtime: R,
    netuid: u16,
    hotkey: AccountId,
    is_owner: bool,
    stored: Seq<Option<LockState>>,
) -> bool {
    &&& stored.len() == if is_owner {
        4int
    } else {
        2int
    }
    &&& call_ensures(R::hotkey_lock, (&runtime, netuid, hotkey), stored[0])
    &&& call_ensures(R::decaying_hotkey_lock, (&runtime, netuid, hotkey), stored[1])
    &&& is_owner ==> call_ensures(R::owner_lock, (&runtime, netuid), stored[2])
    &&& is_owner ==> call_ensures(R::decaying_owner_lock, (&runtime, netuid), stored[3])
}

/// Whether a bucket is what it was, rolled forward; an empty one stays empty.
pub open spec fn rolled_bucket<R: Runtime>(
    runtime: R,
    stored: Option<LockState>,
    now: u64,
    unlock_rate: u64,
    maturity_rate: u64,
    owner_lock: bool,
    perpetual_lock: bool,
    rolled: Option<LockState>,
) -> bool {
    match (stored, rolled) {
        (None, None) => true,
        (Some(lock), Some(later)) => call_ensures(
            R::roll_forward_lock,
            (&runtime, lock, now, unlock_rate, maturity_rate, owner_lock, perpetual_lock),
            later,
        ),
        _ => false,
    }
}

/// Whether all buckets were rolled forward, each by its place: the owner's from the third on, and
/// the perpetual ones at every other place from the first.
pub open spec fn rolled_buckets<R: Runtime>(
    runtime: R,
    stored: Seq<Option<LockState>>,
    now: u64,
    unlock_rate: u64,
    maturity_rate: u64,
    rolled: Seq<Option<LockState>>,
) -> bool {
    &&& rolled.len() == stored.len()
    &&& forall|i: int|
        0 <= i < stored.len() ==> rolled_bucket(
            runtime,
            stored[i],
            now,
            unlock_rate,
            maturity_rate,
            i >= 2,
            i % 2 == 0,
            #[trigger] rolled[i],
        )
}

/// The alpha locked in all buckets.
pub open spec fn locked_in(buckets: Seq<Option<LockState>>) -> nat
    decreases buckets.len(),
{
    if buckets.len() == 0 {
        0
    } else {
        locked_in(buckets.drop_last()) + match buckets.last() {
            Some(lock) => lock.locked_mass as nat,
            None => 0,
        }
    }
}

/// The bits of the conviction built up in all buckets.
pub open spec fn conviction_in(buckets: Seq<Option<LockState>>) -> nat
    decreases buckets.len(),
{
    if buckets.len() == 0 {
        0
    } else {
        conviction_in(buckets.drop_last()) + match buckets.last() {
            Some(lock) => lock.conviction as nat,
            None => 0,
        }
    }
}

/// A number cut off at the top of the `u128` range.
pub open spec fn saturated_u128(value: nat) -> u128 {
    if value > u128::MAX {
        u128::MAX
    } else {
        value as u128
    }
}

/// The alpha locked and the conviction built up in all buckets, each cut off at the top of its
/// range.
pub fn bucket_totals(buckets: &Vec<Option<LockState>>) -> (totals: (u64, u128))
    ensures
        totals.0 == saturated_u64(locked_in(buckets@)),
        totals.1 == saturated_u128(conviction_in(buckets@)),
{
    let mut locked: u64 = 0;
    let mut conviction: u128 = 0;
    let mut i: usize = 0;
    while i < buckets.len()
        invariant
            i <= buckets@.len(),
            locked == saturated_u64(locked_in(buckets@.take(i as int))),
            conviction == saturated_u128(conviction_in(buckets@.take(i as int))),
        decreases buckets@.len() - i,
    {
        assert(buckets@.take(i + 1).drop_last() =~= buckets@.take(i as int));
        if let Some(lock) = buckets[i] {
            locked = locked.saturating_add(lock.locked_mass);
            conviction = add_convictions(conviction, lock.conviction);
        }
        i = i + 1;
    }
    assert(buckets@.take(i as int) =~= buckets@);
    (locked, conviction)
}

} // verus!
