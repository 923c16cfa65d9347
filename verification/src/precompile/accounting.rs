//! Charging for the totals, whose cost depends on what is stored.
use crate::precompile::costs::{
    TOTAL_COLDKEY_MATCHED_POSITION_READS, TOTAL_COLDKEY_POSITION_BASE_READS,
    TOTAL_HOTKEY_STAKE_READS_PER_SUBNET,
};
use crate::precompile::failure::EvmResult;
use crate::precompile::handle::{
    paid, saturated_product, saturated_sum, saturating_mul, unpaid, Handle,
};
use crate::precompile::runtime::Runtime;
use crate::primitives::AccountId;
use crate::u256::saturated_u64;
use vstd::prelude::*;

verus! {

/// How charging for the total over a hotkey ends: one read for the most subnets that there may be,
/// and then five reads for each of them.
pub open spec fn hotkey_scan<R: Runtime>(
    runtime: R,
    before: Handle,
    after: Handle,
    charged: EvmResult<()>,
) -> bool {
    let first = before.reads_cost(1);
    ||| unpaid(before, after, first, charged)
    ||| first <= before.gas_left && exists|limit: u64|
        {
            &&& #[trigger] call_ensures(R::subnet_limit, (&runtime,), limit)
            &&& {
                let second = before.reads_cost(
                    saturated_product(limit, TOTAL_HOTKEY_STAKE_READS_PER_SUBNET),
                );
                ||| unpaid(before.spent(first), after, second, charged)
                ||| paid(before.spent(first), after, second) && charged is Ok
            }
        }
}

/// Charges for the total over a hotkey, before it is read.
pub fn record_total_hotkey_stake_reads<R: Runtime>(
    runtime: &R,
    handle: &mut Handle,
) -> (charged: EvmResult<()>)
    ensures
        hotkey_scan(*runtime, *old(handle), *final(handle), charged),
{
    handle.record_db_reads(1)?;
    let limit: u64 = runtime.subnet_limit();
    handle.record_db_reads(saturating_mul(limit, TOTAL_HOTKEY_STAKE_READS_PER_SUBNET))
}

/// Whether `netuids` lists, for each of the hotkeys in turn, the subnets of the coldkey's positions
/// on it, those of the older table first.
pub open spec fn positions<R: Runtime>(
    runtime: R,
    coldkey: AccountId,
    hotkeys: Seq<AccountId>,
    netuids: Seq<u16>,
) -> bool
    decreases hotkeys.len(),
{
    if hotkeys.len() == 0 {
        netuids.len() == 0
    } else {
        exists|older: Vec<u16>, newer: Vec<u16>|
            {
                let earlier = netuids.len() - older@.len() - newer@.len();
                &&& #[trigger] call_ensures(
                    R::alpha_netuids,
                    (&runtime, hotkeys.last(), coldkey),
                    older,
                )
                &&& #[trigger] call_ensures(
                    R::alpha_v2_netuids,
                    (&runtime, hotkeys.last(), coldkey),
                    newer,
                )
                &&& earlier >= 0
                &&& positions(runtime, coldkey, hotkeys.drop_last(), netuids.take(earlier))
                &&& netuids.skip(earlier) == older@ + newer@
            }
    }
}

/// How many positions are on the selected subnet, or on any where none is selected.
pub open spec fn matched(netuids: Seq<u16>, selected: Option<u16>) -> nat {
    netuids.filter(|netuid: u16| selected is None || selected == Some(netuid)).len()
}

/// The reads for the total over a coldkey with positions on these subnets.
pub open spec fn position_reads(netuids: Seq<u16>, selected: Option<u16>) -> u64 {
    saturated_sum(
        saturated_product(saturated_u64(netuids.len()), TOTAL_COLDKEY_POSITION_BASE_READS),
        saturated_product(
            saturated_u64(matched(netuids, selected)),
            TOTAL_COLDKEY_MATCHED_POSITION_READS,
        ),
    )
}

/// The reads for the total over a coldkey with positions on these subnets.
pub fn coldkey_position_reads(netuids: &Vec<u16>, selected: Option<u16>) -> (reads: u64)
    ensures
        reads == position_reads(netuids@, selected),
{
    let mut counted: u64 = 0;
    let mut i: usize = 0;
    assert(matched(netuids@.take(0), selected) == 0) by {
        reveal(Seq::filter);
    }
    while i < netuids.len()
        invariant
            i <= netuids@.len(),
            counted <= i,
            counted == matched(netuids@.take(i as int), selected),
        decreases netuids@.len() - i,
    {
        assert(netuids@.take(i + 1).drop_last() =~= netuids@.take(i as int));
        reveal(Seq::filter);
        let counts = match selected {
            None => true,
            Some(netuid) => netuid == netuids[i],
        };
        if counts {
            counted = counted + 1;
        }
        i = i + 1;
    }
    assert(netuids@.take(i as int) =~= netuids@);
    saturating_mul(netuids.len() as u64, TOTAL_COLDKEY_POSITION_BASE_READS).saturating_add(
        saturating_mul(counted, TOTAL_COLDKEY_MATCHED_POSITION_READS),
    )
}

/// How charging for the total over a coldkey ends: two reads for the list of its hotkeys, and then
/// the reads for its positions on them.
pub open spec fn coldkey_scan<R: Runtime>(
    runtime: R,
    before: Handle,
    after: Handle,
    coldkey: AccountId,
    selected: Option<u16>,
    charged: EvmResult<()>,
) -> bool {
    let first = before.reads_cost(2);
    ||| unpaid(before, after, first, charged)
    ||| first <= before.gas_left && exists|hotkeys: Vec<AccountId>, netuids: Seq<u16>|
        {
            &&& #[trigger] call_ensures(R::staking_hotkeys, (&runtime, coldkey), hotkeys)
            &&& #[trigger] positions(runtime, coldkey, hotkeys@, netuids)
            &&& {
                let second = before.reads_cost(position_reads(netuids, selected));
                ||| unpaid(before.spent(first), after, second, charged)
                ||| paid(before.spent(first), after, second) && charged is Ok
            }
        }
}

/// Charges for the total over a coldkey, before it is read.
pub fn record_total_coldkey_stake_reads<R: Runtime>(
    runtime: &R,
    handle: &mut Handle,
    coldkey: AccountId,
    selected: Option<u16>,
) -> (charged: EvmResult<()>)
    ensures
        coldkey_scan(*runtime, *old(handle), *final(handle), coldkey, selected, charged),
{
    handle.record_db_reads(2)?;
    let hotkeys = runtime.staking_hotkeys(coldkey);
    let mut netuids: Vec<u16> = Vec::new();
    let mut i: usize = 0;
    while i < hotkeys.len()
        invariant
            i <= hotkeys@.len(),
            positions(*runtime, coldkey, hotkeys@.take(i as int), netuids@),
        decreases hotkeys@.len() - i,
    {
        let ghost earlier = netuids@;
        let mut older = runtime.alpha_netuids(hotkeys[i], coldkey);
        let mut newer = runtime.alpha_v2_netuids(hotkeys[i], coldkey);
        let ghost (read_older, read_newer) = (older, newer);
        netuids.append(&mut older);
        netuids.append(&mut newer);
        proof {
            let seen = hotkeys@.take(i + 1);
            assert(seen.drop_last() =~= hotkeys@.take(i as int));
            assert(seen.last() == hotkeys@[i as int]);
            let len = netuids@.len() - read_older@.len() - read_newer@.len();
            assert(netuids@.take(len) =~= earlier);
            assert(netuids@.skip(len) =~= read_older@ + read_newer@);
            assert(call_ensures(R::alpha_netuids, (runtime, seen.last(), coldkey), read_older));
            assert(call_ensures(R::alpha_v2_netuids, (runtime, seen.last(), coldkey), read_newer));
        }
        i = i + 1;
    }
    assert(hotkeys@.take(i as int) =~= hotkeys@);
    handle.record_db_reads(coldkey_position_reads(&netuids, selected))
}

} // verus!
