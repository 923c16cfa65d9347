//! Reading locks and conviction.
use crate::precompile::convert::{as_u16, try_u16_from_u256};
use crate::precompile::costs::{
    COLDKEY_LOCK_READS, HOTKEY_LOCK_READS, MAX_CONVICTION_HOTKEYS, STAKE_INFO_INPUT_GAS_PER_HOTKEY,
};
use crate::precompile::failure::{answered, failed, revert, reverted, EvmResult};
use crate::precompile::handle::{
    paid, paid_both, saturated_product, saturating_mul, unpaid, Handle,
};
use crate::precompile::lists::{ensure_at_most, has_duplicate, too_long};
use crate::precompile::locks::{
    bucket_totals, conviction_in, locked_in, rolled_bucket, rolled_buckets, saturated_u128,
    stored_buckets,
};
use crate::precompile::runtime::{LockState, Runtime};
use crate::precompile::staking_v2::StakingPrecompileV2;
use crate::primitives::{account_to_h256, zero_word, AccountId, H256};
use crate::u256::{saturated_u64, U256};
use vstd::prelude::*;

verus! {

/// Whether a coldkey's lock was answered: whether it is there, its hotkey, the alpha locked, the
/// bits of its conviction, and whether it is perpetual.
pub open spec fn lock_answered(
    result: EvmResult<(bool, H256, U256, u128, bool)>,
    there: bool,
    hotkey: H256,
    locked: nat,
    conviction: u128,
    perpetual: bool,
) -> bool {
    &&& result is Ok
    &&& result->Ok_0.0 == there
    &&& result->Ok_0.1 == hotkey
    &&& result->Ok_0.2@ == locked
    &&& result->Ok_0.3 == conviction
    &&& result->Ok_0.4 == perpetual
}

/// Whether the answer is the stored lock `lock` on `hotkey`, rolled forward to the current block. A
/// lock small enough to be cleaned up is answered as not being there.
pub open spec fn rolled_lock_answered<R: Runtime>(
    runtime: R,
    netuid: u16,
    hotkey: AccountId,
    lock: LockState,
    perpetual: bool,
    result: EvmResult<(bool, H256, U256, u128, bool)>,
) -> bool {
    exists|
        now: u64,
        owner: AccountId,
        unlock_rate: u64,
        maturity_rate: u64,
        rolled: LockState,
        gone: bool,
    |
        {
            &&& #[trigger] call_ensures(R::get_current_block_as_u64, (&runtime,), now)
            &&& #[trigger] call_ensures(R::subnet_owner_hotkey, (&runtime, netuid), owner)
            &&& #[trigger] call_ensures(R::unlock_rate, (&runtime,), unlock_rate)
            &&& #[trigger] call_ensures(R::maturity_rate, (&runtime,), maturity_rate)
            &&& call_ensures(
                R::roll_forward_lock,
                (&runtime, lock, now, unlock_rate, maturity_rate, hotkey == owner, perpetual),
                rolled,
            )
            &&& #[trigger] call_ensures(R::lock_is_zero, (&runtime, rolled), gone)
            &&& lock_answered(
                result,
                !gone,
                H256(hotkey.0),
                rolled.locked_mass as nat,
                rolled.conviction,
                perpetual,
            )
        }
}

/// Whether the answer is what the buckets of locks on a hotkey of a subnet hold together, rolled
/// forward to the current block.
pub open spec fn hotkey_lock_answered<R: Runtime>(
    runtime: R,
    netuid: u16,
    hotkey: AccountId,
    result: EvmResult<(bool, U256, u128)>,
) -> bool {
    exists|
        now: u64,
        unlock_rate: u64,
        maturity_rate: u64,
        owner: AccountId,
        stored: Seq<Option<LockState>>,
        rolled: Seq<Option<LockState>>,
    |
        {
            let locked = saturated_u64(locked_in(rolled));
            let conviction = saturated_u128(conviction_in(rolled));
            &&& #[trigger] call_ensures(R::get_current_block_as_u64, (&runtime,), now)
            &&& #[trigger] call_ensures(R::unlock_rate, (&runtime,), unlock_rate)
            &&& #[trigger] call_ensures(R::maturity_rate, (&runtime,), maturity_rate)
            &&& #[trigger] call_ensures(R::subnet_owner_hotkey, (&runtime, netuid), owner)
            &&& stored_buckets(runtime, netuid, hotkey, hotkey == owner, stored)
            &&& #[trigger] rolled_buckets(runtime, stored, now, unlock_rate, maturity_rate, rolled)
            &&& result is Ok
            &&& result->Ok_0.0 == (locked > 0 || conviction > 0)
            &&& result->Ok_0.1@ == locked
            &&& result->Ok_0.2 == conviction
        }
}

/// Whether `convictions` are those of the hotkeys on a subnet, one for one.
pub open spec fn convictions_read<R: Runtime>(
    runtime: R,
    hotkeys: Seq<H256>,
    netuid: u16,
    convictions: Seq<u128>,
) -> bool {
    &&& convictions.len() == hotkeys.len()
    &&& forall|i: int|
        0 <= i < hotkeys.len() ==> call_ensures(
            R::hotkey_conviction,
            (&runtime, AccountId(hotkeys[i].0), netuid),
            #[trigger] convictions[i],
        )
}

/// How a request for convictions ends. A list that is too long is refused before anything is
/// charged. Then the checks of the list are charged, the subnet and the list are checked, and the
/// reads are charged. Then the convictions are answered, one for each hotkey.
pub open spec fn convictions<R: Runtime>(
    runtime: R,
    before: Handle,
    after: Handle,
    netuid: nat,
    hotkeys: Seq<H256>,
    result: EvmResult<Vec<u128>>,
) -> bool {
    let checks = saturated_product(hotkeys.len() as u64, STAKE_INFO_INPUT_GAS_PER_HOTKEY);
    let reads = before.reads_cost(saturated_product(hotkeys.len() as u64, HOTKEY_LOCK_READS));
    if hotkeys.len() > MAX_CONVICTION_HOTKEYS {
        failed(result, too_long()) && after == before
    } else {
        ||| unpaid(before, after, checks, result)
        ||| checks <= before.gas_left && match as_u16(netuid) {
            Err(failure) => failed(result, failure) && after == before.spent(checks),
            Ok(subnet) => if !hotkeys.no_duplicates() {
                failed(result, reverted("duplicate conviction hotkey")) && after == before.spent(
                    checks,
                )
            } else {
                ||| unpaid(before.spent(checks), after, reads, result)
                ||| paid_both(before, after, checks, reads) && result is Ok && convictions_read(
                    runtime,
                    hotkeys,
                    subnet,
                    result->Ok_0@,
                )
            },
        }
    }
}

impl<R: Runtime> StakingPrecompileV2<R> {
    /// One coldkey's lock on a subnet, rolled forward to the current block. It is answered as not
    /// being there where the rolled lock is small enough to be cleaned up, though its row may still
    /// be stored.
    pub fn get_coldkey_lock(
        &self,
        handle: &mut Handle,
        coldkey: H256,
        netuid: U256,
    ) -> (result: EvmResult<(bool, H256, U256, u128, bool)>)
        ensures
            ({
                let cost = old(handle).reads_cost(COLDKEY_LOCK_READS);
                let coldkey = AccountId(coldkey.0);
                ||| unpaid(*old(handle), *final(handle), cost, result)
                ||| paid(*old(handle), *final(handle), cost) && match as_u16(netuid@) {
                    Err(failure) => failed(result, failure),
                    Ok(subnet) => exists|mode: Option<bool>, found: Option<(AccountId, LockState)>|
                        {
                            let perpetual = mode == Some(false);
                            &&& #[trigger] call_ensures(
                                R::decaying_lock,
                                (&self.runtime, coldkey, subnet),
                                mode,
                            )
                            &&& #[trigger] call_ensures(
                                R::first_lock,
                                (&self.runtime, coldkey, subnet),
                                found,
                            )
                            &&& match found {
                                None => lock_answered(result, false, zero_word(), 0, 0, perpetual),
                                Some((hotkey, lock)) => rolled_lock_answered(
                                    self.runtime,
                                    subnet,
                                    hotkey,
                                    lock,
                                    perpetual,
                                    result,
                                ),
                            }
                        },
                }
            }),
    {
        handle.record_db_reads(COLDKEY_LOCK_READS)?;
        let coldkey = coldkey.account();
        let subnet = try_u16_from_u256(netuid)?;
        let mode = self.runtime.decaying_lock(coldkey, subnet);
        let perpetual = match mode {
            Some(decaying) => !decaying,
            None => false,
        };
        let found = self.runtime.first_lock(coldkey, subnet);
        match found {
            None => Ok((false, H256::zero(), U256::zero(), 0, perpetual)),
            Some((hotkey, lock)) => {
                let now: u64 = self.runtime.get_current_block_as_u64();
                let owner = self.runtime.subnet_owner_hotkey(subnet);
                let unlock_rate: u64 = self.runtime.unlock_rate();
                let maturity_rate: u64 = self.runtime.maturity_rate();
                let rolled = self.runtime.roll_forward_lock(
                    lock,
                    now,
                    unlock_rate,
                    maturity_rate,
                    hotkey.same(&owner),
                    perpetual,
                );
                let gone = self.runtime.lock_is_zero(rolled);
                Ok(
                    (
                        !gone,
                        account_to_h256(hotkey),
                        U256::from_u64(rolled.locked_mass),
                        rolled.conviction,
                        perpetual,
                    ),
                )
            },
        }
    }

    /// A bucket of locks, rolled forward.
    fn roll_bucket(
        &self,
        stored: Option<LockState>,
        now: u64,
        unlock_rate: u64,
        maturity_rate: u64,
        owner_lock: bool,
        perpetual_lock: bool,
    ) -> (rolled: Option<LockState>)
        ensures
            rolled_bucket(
                self.runtime,
                stored,
                now,
                unlock_rate,
                maturity_rate,
                owner_lock,
                perpetual_lock,
                rolled,
            ),
    {
        match stored {
            None => None,
            Some(lock) => Some(
                self.runtime.roll_forward_lock(
                    lock,
                    now,
                    unlock_rate,
                    maturity_rate,
                    owner_lock,
                    perpetual_lock,
                ),
            ),
        }
    }

    /// All locks on a hotkey of a subnet, rolled forward to the current block: whether there are
    /// any, the alpha locked, and the bits of the conviction. The subnet owner's buckets count
    /// where the hotkey is the owner's.
    pub fn get_hotkey_lock(
        &self,
        handle: &mut Handle,
        hotkey: H256,
        netuid: U256,
    ) -> (result: EvmResult<(bool, U256, u128)>)
        ensures
            ({
                let cost = old(handle).reads_cost(HOTKEY_LOCK_READS);
                ||| unpaid(*old(handle), *final(handle), cost, result)
                ||| paid(*old(handle), *final(handle), cost) && match as_u16(netuid@) {
                    Err(failure) => failed(result, failure),
                    Ok(subnet) => hotkey_lock_answered(
                        self.runtime,
                        subnet,
                        AccountId(hotkey.0),
                        result,
                    ),
                }
            }),
    {
        handle.record_db_reads(HOTKEY_LOCK_READS)?;
        let hotkey = hotkey.account();
        let subnet = try_u16_from_u256(netuid)?;
        let now: u64 = self.runtime.get_current_block_as_u64();
        let unlock_rate: u64 = self.runtime.unlock_rate();
        let maturity_rate: u64 = self.runtime.maturity_rate();
        let owner = self.runtime.subnet_owner_hotkey(subnet);
        let mut stored: Vec<Option<LockState>> = Vec::new();
        stored.push(self.runtime.hotkey_lock(subnet, hotkey));
        stored.push(self.runtime.decaying_hotkey_lock(subnet, hotkey));
        if hotkey.same(&owner) {
            stored.push(self.runtime.owner_lock(subnet));
            stored.push(self.runtime.decaying_owner_lock(subnet));
        }
        assert(stored_buckets(self.runtime, subnet, hotkey, hotkey == owner, stored@));
        let mut rolled: Vec<Option<LockState>> = Vec::new();
        let mut i: usize = 0;
        while i < stored.len()
            invariant
                i <= stored@.len(),
                rolled_buckets(
                    self.runtime,
                    stored@.take(i as int),
                    now,
                    unlock_rate,
                    maturity_rate,
                    rolled@,
                ),
            decreases stored@.len() - i,
        {
            let ghost before = rolled@;
            rolled.push(
                self.roll_bucket(
                    stored[i],
                    now,
                    unlock_rate,
                    maturity_rate,
                    i >= 2,
                    i % 2 == 0,
                ),
            );
            assert forall|j: int| 0 <= j < i + 1 implies rolled_bucket(
                self.runtime,
                stored@.take(i + 1)[j],
                now,
                unlock_rate,
                maturity_rate,
                j >= 2,
                j % 2 == 0,
                #[trigger] rolled@[j],
            ) by {
                if j < i {
                    assert(rolled@[j] == before[j]);
                    assert(stored@.take(i as int)[j] == stored@.take(i + 1)[j]);
                }
            }
            i = i + 1;
        }
        assert(stored@.take(i as int) =~= stored@);
        let (locked, conviction) = bucket_totals(&rolled);
        Ok((locked > 0 || conviction > 0, U256::from_u64(locked), conviction))
    }

    /// The convictions of the given hotkeys on a subnet, one for one.
    pub fn get_hotkey_convictions(
        &self,
        handle: &mut Handle,
        netuid: U256,
        hotkeys: Vec<H256>,
    ) -> (result: EvmResult<Vec<u128>>)
        ensures
            convictions(
                self.runtime,
                *old(handle),
                *final(handle),
                netuid@,
                hotkeys@,
                result,
            ),
    {
        ensure_at_most(&hotkeys, MAX_CONVICTION_HOTKEYS)?;
        let count: u64 = hotkeys.len() as u64;
        handle.record_cost(saturating_mul(count, STAKE_INFO_INPUT_GAS_PER_HOTKEY))?;
        let subnet = try_u16_from_u256(netuid)?;
        if has_duplicate(&hotkeys) {
            return Err(revert("duplicate conviction hotkey"));
        }
        handle.record_db_reads(saturating_mul(count, HOTKEY_LOCK_READS))?;
        let mut list: Vec<u128> = Vec::new();
        let mut i: usize = 0;
        while i < hotkeys.len()
            invariant
                i <= hotkeys@.len(),
                convictions_read(self.runtime, hotkeys@.take(i as int), subnet, list@),
            decreases hotkeys@.len() - i,
        {
            let conviction: u128 = self.runtime.hotkey_conviction(hotkeys[i].account(), subnet);
            let ghost before = list@;
            list.push(conviction);
            assert forall|j: int| 0 <= j < i + 1 implies call_ensures(
                R::hotkey_conviction,
                (&self.runtime, AccountId(hotkeys@.take(i + 1)[j].0), subnet),
                #[trigger] list@[j],
            ) by {
                if j < i {
                    assert(list@[j] == before[j]);
                    assert(hotkeys@.take(i as int)[j] == hotkeys@.take(i + 1)[j]);
                }
            }
            i = i + 1;
        }
        assert(hotkeys@.take(i as int) =~= hotkeys@);
        Ok(list)
    }

    /// The timescales over which locks decay, and over which conviction matures.
    pub fn get_lock_rates(&self, handle: &mut Handle) -> (result: EvmResult<(u64, u64)>)
        ensures
            ({
                let cost = old(handle).reads_cost(2);
                ||| unpaid(*old(handle), *final(handle), cost, result)
                ||| paid(*old(handle), *final(handle), cost) && exists|unlock: u64, maturity: u64|
                    {
                        &&& #[trigger] call_ensures(R::unlock_rate, (&self.runtime,), unlock)
                        &&& #[trigger] call_ensures(R::maturity_rate, (&self.runtime,), maturity)
                        &&& answered(result, (unlock, maturity))
                    }
            }),
    {
        handle.record_db_reads(2)?;
        let unlock: u64 = self.runtime.unlock_rate();
        let maturity: u64 = self.runtime.maturity_rate();
        Ok((unlock, maturity))
    }

    /// Whether a coldkey refuses stake that carries a lock.
    pub fn get_reject_locked_alpha(
        &self,
        handle: &mut Handle,
        coldkey: H256,
    ) -> (result: EvmResult<bool>)
        ensures
            ({
                let cost = old(handle).reads_cost(1);
                ||| unpaid(*old(handle), *final(handle), cost, result)
                ||| paid(*old(handle), *final(handle), cost) && exists|rejects: bool|
                    #[trigger] call_ensures(
                        R::account_rejects_locked_alpha,
                        (&self.runtime, AccountId(coldkey.0)),
                        rejects,
                    ) && answered(result, rejects)
            }),
    {
        handle.record_db_reads(1)?;
        Ok(self.runtime.account_rejects_locked_alpha(coldkey.account()))
    }
}

} // verus!
