//! Reading stake.
use crate::precompile::accounting::{
    coldkey_scan, hotkey_scan, record_total_coldkey_stake_reads, record_total_hotkey_stake_reads,
};
use crate::precompile::convert::{as_u16, in_evm_units, tao_to_evm, try_u16_from_u256};
use crate::precompile::costs::{
    MAX_STAKE_INFO_HOTKEYS, MAX_UNCLAIMED_ROOT_HOTKEYS, ROOT_UNCLAIMED_READS_PER_HOTKEY,
    STAKE_INFO_INPUT_GAS_PER_HOTKEY, STAKE_INFO_READS_PER_HOTKEY,
};
use crate::precompile::failure::{failed, revert, reverted, EvmResult};
use crate::precompile::handle::{
    paid, paid_both, saturated_product, saturated_sum, saturating_mul, unpaid, Handle,
};
use crate::precompile::lists::{
    ensure_at_most, ensure_page_limit, has_duplicate, hotkeys_page, nonzero, nonzero_positions,
    numbers, page, page_refusal, saturating_total, staked_validators, sum, too_long, walked,
    widened, words,
};
use crate::precompile::runtime::Runtime;
use crate::precompile::staking_v2::StakingPrecompileV2;
use crate::primitives::{AccountId, H256};
use crate::u256::{saturated_u64, U256};
use vstd::prelude::*;

verus! {

/// Whether a result is all stake of a coldkey, in rao, charged for before it is read.
pub open spec fn coldkey_stake_answered<R: Runtime>(
    runtime: R,
    before: Handle,
    after: Handle,
    coldkey: AccountId,
    result: EvmResult<U256>,
) -> bool {
    exists|charged: EvmResult<()>|
        {
            &&& #[trigger] coldkey_scan(runtime, before, after, coldkey, None, charged)
            &&& match charged {
                Err(failure) => failed(result, failure),
                Ok(_) => result is Ok && exists|stake: u64|
                    #[trigger] call_ensures(
                        R::get_total_stake_for_coldkey,
                        (&runtime, coldkey),
                        stake,
                    ) && result->Ok_0@ == stake,
            }
        }
}

/// Whether a result is all stake on a hotkey, in rao, charged for before it is read.
pub open spec fn hotkey_stake_answered<R: Runtime>(
    runtime: R,
    before: Handle,
    after: Handle,
    hotkey: AccountId,
    result: EvmResult<U256>,
) -> bool {
    exists|charged: EvmResult<()>|
        {
            &&& #[trigger] hotkey_scan(runtime, before, after, charged)
            &&& match charged {
                Err(failure) => failed(result, failure),
                Ok(_) => result is Ok && exists|stake: u64|
                    #[trigger] call_ensures(
                        R::get_total_stake_for_hotkey,
                        (&runtime, hotkey),
                        stake,
                    ) && result->Ok_0@ == stake,
            }
        }
}

/// Whether a result is the stake of a coldkey on a hotkey of a subnet, in alpha, charged for
/// before it is read.
pub open spec fn stake_answered<R: Runtime>(
    runtime: R,
    before: Handle,
    after: Handle,
    hotkey: AccountId,
    coldkey: AccountId,
    netuid: nat,
    result: EvmResult<U256>,
) -> bool {
    let cost = before.reads_cost(STAKE_INFO_READS_PER_HOTKEY);
    ||| unpaid(before, after, cost, result)
    ||| paid(before, after, cost) && match as_u16(netuid) {
        Err(failure) => failed(result, failure),
        Ok(subnet) => result is Ok && exists|stake: u64|
            #[trigger] call_ensures(
                R::get_stake_for_hotkey_and_coldkey_on_subnet,
                (&runtime, hotkey, coldkey, subnet),
                stake,
            ) && result->Ok_0@ == stake,
    }
}

/// Whether `stakes` are the coldkey's stakes on the hotkeys of a subnet, one for one.
pub open spec fn stakes_read<R: Runtime>(
    runtime: R,
    hotkeys: Seq<H256>,
    coldkey: AccountId,
    netuid: u16,
    stakes: Seq<u64>,
) -> bool {
    &&& stakes.len() == hotkeys.len()
    &&& forall|i: int|
        0 <= i < hotkeys.len() ==> call_ensures(
            R::get_stake_for_hotkey_and_coldkey_on_subnet,
            (&runtime, AccountId(hotkeys[i].0), coldkey, netuid),
            #[trigger] stakes[i],
        )
}

/// Whether `payouts` are what the hotkeys' baskets owe the coldkey for a subnet, one for one.
pub open spec fn payouts_read<R: Runtime>(
    runtime: R,
    hotkeys: Seq<H256>,
    coldkey: AccountId,
    netuid: u16,
    payouts: Seq<u64>,
) -> bool {
    &&& payouts.len() == hotkeys.len()
    &&& forall|i: int|
        0 <= i < hotkeys.len() ==> call_ensures(
            R::get_basket_subnet_payout_tao,
            (&runtime, AccountId(hotkeys[i].0), coldkey, netuid),
            #[trigger] payouts[i],
        )
}

/// How a request for stakes ends. A list that is too long is refused before anything is charged.
/// Then the checks of the list are charged, the subnet and the list are checked, and the reads are
/// charged. Then the stakes that are not zero are answered.
pub open spec fn stake_info<R: Runtime>(
    runtime: R,
    before: Handle,
    after: Handle,
    coldkey: AccountId,
    netuid: nat,
    hotkeys: Seq<H256>,
    result: EvmResult<Vec<(H256, U256)>>,
) -> bool {
    let checks = saturated_product(hotkeys.len() as u64, STAKE_INFO_INPUT_GAS_PER_HOTKEY);
    let reads = before.reads_cost(
        saturated_product(hotkeys.len() as u64, STAKE_INFO_READS_PER_HOTKEY),
    );
    if hotkeys.len() > MAX_STAKE_INFO_HOTKEYS {
        failed(result, too_long()) && after == before
    } else {
        ||| unpaid(before, after, checks, result)
        ||| checks <= before.gas_left && match as_u16(netuid) {
            Err(failure) => failed(result, failure) && after == before.spent(checks),
            Ok(subnet) => if !hotkeys.no_duplicates() {
                failed(result, reverted("duplicate stake info hotkey")) && after == before.spent(
                    checks,
                )
            } else {
                ||| unpaid(before.spent(checks), after, reads, result)
                ||| paid_both(before, after, checks, reads) && result is Ok && exists|
                    stakes: Seq<u64>,
                | #[trigger]
                    stakes_read(runtime, hotkeys, coldkey, subnet, stakes) && numbers(
                        result->Ok_0@,
                    ) == widened(nonzero(hotkeys, stakes))
            },
        }
    }
}

/// How a request for what baskets owe on a subnet ends.
pub open spec fn unclaimed_on_subnet<R: Runtime>(
    runtime: R,
    before: Handle,
    after: Handle,
    coldkey: AccountId,
    netuid: u16,
    hotkeys: Seq<H256>,
    result: EvmResult<U256>,
) -> bool {
    let reads = before.reads_cost(
        saturated_product(hotkeys.len() as u64, ROOT_UNCLAIMED_READS_PER_HOTKEY),
    );
    if hotkeys.len() > MAX_UNCLAIMED_ROOT_HOTKEYS {
        failed(result, too_long()) && after == before
    } else {
        ||| unpaid(before, after, reads, result)
        ||| paid(before, after, reads) && if !hotkeys.no_duplicates() {
            failed(result, reverted("duplicate unclaimed root hotkey"))
        } else {
            exists|payouts: Seq<u64>| #[trigger]
                payouts_read(runtime, hotkeys, coldkey, netuid, payouts) && in_evm_units(
                    runtime,
                    saturated_u64(sum(payouts)),
                    result,
                )
        }
    }
}

impl<R: Runtime> StakingPrecompileV2<R> {
    /// All stake of a coldkey, in rao.
    pub fn get_total_coldkey_stake(
        &self,
        handle: &mut Handle,
        coldkey: H256,
    ) -> (result: EvmResult<U256>)
        ensures
            coldkey_stake_answered(
                self.runtime,
                *old(handle),
                *final(handle),
                AccountId(coldkey.0),
                result,
            ),
    {
        let coldkey = coldkey.account();
        let charged = record_total_coldkey_stake_reads(&self.runtime, handle, coldkey, None);
        match charged {
            Err(failure) => Err(failure),
            Ok(_) => Ok(U256::from_u64(self.runtime.get_total_stake_for_coldkey(coldkey))),
        }
    }

    /// All stake of a coldkey on a subnet, in rao.
    pub fn get_total_coldkey_stake_on_subnet(
        &self,
        handle: &mut Handle,
        coldkey: H256,
        netuid: U256,
    ) -> (result: EvmResult<U256>)
        ensures
            match as_u16(netuid@) {
                Err(failure) => failed(result, failure) && *final(handle) == *old(handle),
                Ok(subnet) => exists|charged: EvmResult<()>|
                    {
                        &&& #[trigger] coldkey_scan(
                            self.runtime,
                            *old(handle),
                            *final(handle),
                            AccountId(coldkey.0),
                            Some(subnet),
                            charged,
                        )
                        &&& match charged {
                            Err(failure) => failed(result, failure),
                            Ok(_) => result is Ok && exists|stake: u64|
                                #[trigger] call_ensures(
                                    R::get_total_stake_for_coldkey_on_subnet,
                                    (&self.runtime, AccountId(coldkey.0), subnet),
                                    stake,
                                ) && result->Ok_0@ == stake,
                        }
                    },
            },
    {
        let coldkey = coldkey.account();
        let subnet = try_u16_from_u256(netuid)?;
        let charged = record_total_coldkey_stake_reads(
            &self.runtime,
            handle,
            coldkey,
            Some(subnet),
        );
        match charged {
            Err(failure) => Err(failure),
            Ok(_) => Ok(
                U256::from_u64(
                    self.runtime.get_total_stake_for_coldkey_on_subnet(coldkey, subnet),
                ),
            ),
        }
    }

    /// All stake on a hotkey, in rao.
    pub fn get_total_hotkey_stake(
        &self,
        handle: &mut Handle,
        hotkey: H256,
    ) -> (result: EvmResult<U256>)
        ensures
            hotkey_stake_answered(
                self.runtime,
                *old(handle),
                *final(handle),
                AccountId(hotkey.0),
                result,
            ),
    {
        let charged = record_total_hotkey_stake_reads(&self.runtime, handle);
        match charged {
            Err(failure) => Err(failure),
            Ok(_) => Ok(U256::from_u64(self.runtime.get_total_stake_for_hotkey(hotkey.account()))),
        }
    }

    /// The stake of a coldkey on a hotkey of a subnet, in alpha.
    pub fn get_stake(
        &self,
        handle: &mut Handle,
        hotkey: H256,
        coldkey: H256,
        netuid: U256,
    ) -> (result: EvmResult<U256>)
        ensures
            stake_answered(
                self.runtime,
                *old(handle),
                *final(handle),
                AccountId(hotkey.0),
                AccountId(coldkey.0),
                netuid@,
                result,
            ),
    {
        handle.record_db_reads(STAKE_INFO_READS_PER_HOTKEY)?;
        let subnet = try_u16_from_u256(netuid)?;
        let stake: u64 = self.runtime.get_stake_for_hotkey_and_coldkey_on_subnet(
            hotkey.account(),
            coldkey.account(),
            subnet,
        );
        Ok(U256::from_u64(stake))
    }

    /// The stakes of a coldkey on the given hotkeys of a subnet, in their order, without those that
    /// are zero.
    pub fn get_stake_info_for_coldkey_and_netuid(
        &self,
        handle: &mut Handle,
        coldkey: H256,
        netuid: U256,
        hotkeys: Vec<H256>,
    ) -> (result: EvmResult<Vec<(H256, U256)>>)
        ensures
            stake_info(
                self.runtime,
                *old(handle),
                *final(handle),
                AccountId(coldkey.0),
                netuid@,
                hotkeys@,
                result,
            ),
    {
        ensure_at_most(&hotkeys, MAX_STAKE_INFO_HOTKEYS)?;
        let count: u64 = hotkeys.len() as u64;
        handle.record_cost(saturating_mul(count, STAKE_INFO_INPUT_GAS_PER_HOTKEY))?;
        let coldkey = coldkey.account();
        let subnet = try_u16_from_u256(netuid)?;
        if has_duplicate(&hotkeys) {
            return Err(revert("duplicate stake info hotkey"));
        }
        handle.record_db_reads(saturating_mul(count, STAKE_INFO_READS_PER_HOTKEY))?;
        let mut stakes: Vec<u64> = Vec::new();
        let mut i: usize = 0;
        while i < hotkeys.len()
            invariant
                i <= hotkeys@.len(),
                stakes_read(self.runtime, hotkeys@.take(i as int), coldkey, subnet, stakes@),
            decreases hotkeys@.len() - i,
        {
            let hotkey = hotkeys[i].account();
            let stake: u64 = self.runtime.get_stake_for_hotkey_and_coldkey_on_subnet(
                hotkey,
                coldkey,
                subnet,
            );
            let ghost before = stakes@;
            stakes.push(stake);
            assert forall|j: int| 0 <= j < i + 1 implies call_ensures(
                R::get_stake_for_hotkey_and_coldkey_on_subnet,
                (&self.runtime, AccountId(hotkeys@.take(i + 1)[j].0), coldkey, subnet),
                #[trigger] stakes@[j],
            ) by {
                if j < i {
                    assert(stakes@[j] == before[j]);
                    assert(hotkeys@.take(i as int)[j] == hotkeys@.take(i + 1)[j]);
                }
            }
            i = i + 1;
        }
        assert(hotkeys@.take(i as int) =~= hotkeys@);
        Ok(nonzero_positions(&hotkeys, &stakes))
    }

    /// The coldkeys with a position on a hotkey of a subnet.
    pub fn get_alpha_staked_validators(
        &self,
        handle: &mut Handle,
        hotkey: H256,
        netuid: U256,
    ) -> (result: EvmResult<Vec<H256>>)
        ensures
            match as_u16(netuid@) {
                Err(failure) => failed(result, failure) && *final(handle) == *old(handle),
                Ok(subnet) => exists|rows: Vec<(AccountId, u16)>|
                    #[trigger] call_ensures(
                        R::alpha_iter_single_prefix,
                        (&self.runtime, AccountId(hotkey.0)),
                        rows,
                    ) && walked(*old(handle), *final(handle), rows@, subnet, result),
            },
    {
        let subnet = try_u16_from_u256(netuid)?;
        let rows = self.runtime.alpha_iter_single_prefix(hotkey.account());
        staked_validators(handle, &rows, subnet)
    }

    /// All stake on a hotkey of a subnet, in alpha.
    pub fn get_total_alpha_staked(
        &self,
        handle: &mut Handle,
        hotkey: H256,
        netuid: U256,
    ) -> (result: EvmResult<U256>)
        ensures
            ({
                let cost = old(handle).reads_cost(2);
                ||| unpaid(*old(handle), *final(handle), cost, result)
                ||| paid(*old(handle), *final(handle), cost) && match as_u16(netuid@) {
                    Err(failure) => failed(result, failure),
                    Ok(subnet) => result is Ok && exists|stake: u64|
                        #[trigger] call_ensures(
                            R::get_stake_for_hotkey_on_subnet,
                            (&self.runtime, AccountId(hotkey.0), subnet),
                            stake,
                        ) && result->Ok_0@ == stake,
                }
            }),
    {
        handle.record_db_reads(2)?;
        let subnet = try_u16_from_u256(netuid)?;
        let stake: u64 = self.runtime.get_stake_for_hotkey_on_subnet(hotkey.account(), subnet);
        Ok(U256::from_u64(stake))
    }

    /// The least stake that a nominator must keep.
    pub fn get_nominator_min_required_stake(&self, handle: &mut Handle) -> (result: EvmResult<U256>)
        ensures
            ({
                let cost = old(handle).reads_cost(2);
                ||| unpaid(*old(handle), *final(handle), cost, result)
                ||| paid(*old(handle), *final(handle), cost) && result is Ok && exists|stake: u64|
                    #[trigger] call_ensures(
                        R::get_nominator_min_required_stake,
                        (&self.runtime,),
                        stake,
                    ) && result->Ok_0@ == stake
            }),
    {
        handle.record_db_reads(2)?;
        Ok(U256::from_u64(self.runtime.get_nominator_min_required_stake()))
    }

    /// The default least stake.
    pub fn get_default_min_stake(&self, handle: &mut Handle) -> (result: EvmResult<U256>)
        ensures
            ({
                let cost = old(handle).reads_cost(1);
                ||| unpaid(*old(handle), *final(handle), cost, result)
                ||| paid(*old(handle), *final(handle), cost) && result is Ok && exists|stake: u64|
                    #[trigger] call_ensures(R::default_min_stake, (&self.runtime,), stake)
                        && result->Ok_0@ == stake
            }),
    {
        handle.record_db_reads(1)?;
        Ok(U256::from_u64(self.runtime.default_min_stake()))
    }

    /// One page of the hotkeys stored as those that a coldkey stakes on, in the stored order, and
    /// how many there are in all.
    pub fn get_staking_hotkeys(
        &self,
        handle: &mut Handle,
        coldkey: H256,
        offset: u64,
        limit: u16,
    ) -> (result: EvmResult<(Vec<H256>, u64)>)
        ensures
            match page_refusal(limit) {
                Some(failure) => failed(result, failure) && *final(handle) == *old(handle),
                None => {
                    let cost = old(handle).reads_cost(1);
                    ||| unpaid(*old(handle), *final(handle), cost, result)
                    ||| paid(*old(handle), *final(handle), cost) && result is Ok && exists|
                        hotkeys: Vec<AccountId>,
                    |
                        #[trigger] call_ensures(
                            R::staking_hotkeys,
                            (&self.runtime, AccountId(coldkey.0)),
                            hotkeys,
                        ) && result->Ok_0.0@ == page(words(hotkeys@), offset as nat, limit as nat)
                            && result->Ok_0.1 == hotkeys@.len()
                },
            },
    {
        ensure_page_limit(limit)?;
        handle.record_db_reads(1)?;
        let hotkeys = self.runtime.staking_hotkeys(coldkey.account());
        Ok(hotkeys_page(&hotkeys, offset, limit))
    }

    /// What one validator's basket owes a coldkey, in EVM units. Charged as if the basket held
    /// something on every subnet that there may be.
    pub fn get_unclaimed_root_tao_by_hotkey(
        &self,
        handle: &mut Handle,
        coldkey: H256,
        hotkey: H256,
    ) -> (result: EvmResult<U256>)
        ensures
            exists|limit: u64|
                {
                    let cost = old(handle).reads_cost(
                        saturated_sum(
                            1,
                            saturated_product(
                                saturated_sum(limit, 1),
                                ROOT_UNCLAIMED_READS_PER_HOTKEY,
                            ),
                        ),
                    );
                    &&& #[trigger] call_ensures(R::subnet_limit, (&self.runtime,), limit)
                    &&& {
                        ||| unpaid(*old(handle), *final(handle), cost, result)
                        ||| paid(*old(handle), *final(handle), cost) && exists|tao: u64|
                            #[trigger] call_ensures(
                                R::get_basket_payout_tao,
                                (&self.runtime, AccountId(hotkey.0), AccountId(coldkey.0)),
                                tao,
                            ) && in_evm_units(self.runtime, tao, result)
                    }
                },
    {
        let limit: u64 = self.runtime.subnet_limit();
        let subnets: u64 = limit.saturating_add(1);
        let reads: u64 = saturating_mul(subnets, ROOT_UNCLAIMED_READS_PER_HOTKEY);
        let one: u64 = 1;
        handle.record_db_reads(one.saturating_add(reads))?;
        let tao: u64 = self.runtime.get_basket_payout_tao(hotkey.account(), coldkey.account());
        tao_to_evm(&self.runtime, tao)
    }

    /// What the given validators' baskets owe a coldkey for their holdings on a subnet, added up,
    /// in EVM units.
    pub fn get_unclaimed_root_tao_by_subnet(
        &self,
        handle: &mut Handle,
        coldkey: H256,
        netuid: u16,
        hotkeys: Vec<H256>,
    ) -> (result: EvmResult<U256>)
        ensures
            unclaimed_on_subnet(
                self.runtime,
                *old(handle),
                *final(handle),
                AccountId(coldkey.0),
                netuid,
                hotkeys@,
                result,
            ),
    {
        ensure_at_most(&hotkeys, MAX_UNCLAIMED_ROOT_HOTKEYS)?;
        let count: u64 = hotkeys.len() as u64;
        handle.record_db_reads(saturating_mul(count, ROOT_UNCLAIMED_READS_PER_HOTKEY))?;
        let coldkey = coldkey.account();
        if has_duplicate(&hotkeys) {
            return Err(revert("duplicate unclaimed root hotkey"));
        }
        let mut payouts: Vec<u64> = Vec::new();
        let mut i: usize = 0;
        while i < hotkeys.len()
            invariant
                i <= hotkeys@.len(),
                payouts_read(self.runtime, hotkeys@.take(i as int), coldkey, netuid, payouts@),
            decreases hotkeys@.len() - i,
        {
            let hotkey = hotkeys[i].account();
            let payout: u64 = self.runtime.get_basket_subnet_payout_tao(hotkey, coldkey, netuid);
            let ghost before = payouts@;
            payouts.push(payout);
            assert forall|j: int| 0 <= j < i + 1 implies call_ensures(
                R::get_basket_subnet_payout_tao,
                (&self.runtime, AccountId(hotkeys@.take(i + 1)[j].0), coldkey, netuid),
                #[trigger] payouts@[j],
            ) by {
                if j < i {
                    assert(payouts@[j] == before[j]);
                    assert(hotkeys@.take(i as int)[j] == hotkeys@.take(i + 1)[j]);
                }
            }
            i = i + 1;
        }
        assert(hotkeys@.take(i as int) =~= hotkeys@);
        tao_to_evm(&self.runtime, saturating_total(&payouts))
    }
}

} // verus!
