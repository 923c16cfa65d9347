//! What holds of the precompiles across calls.
use crate::precompile::accounting::{
    coldkey_scan, hotkey_scan, matched, position_reads, positions,
};
use crate::precompile::allowances::{approved, decreased, granted, increased, Grants};
use crate::precompile::call::{subtensor, Dispatch, SubtensorCall};
use crate::precompile::convert::{as_u16, in_evm_units};
use crate::precompile::costs::{
    TOTAL_COLDKEY_MATCHED_POSITION_READS, TOTAL_COLDKEY_POSITION_BASE_READS,
};
use crate::precompile::failure::{answered, exit, failed, EvmResult, ExitError};
use crate::precompile::handle::{paid, saturated_product, unpaid, Handle};
use crate::precompile::lists::{nonzero, page};
use crate::precompile::locks::{conviction_in, locked_in, saturated_u128};
use crate::precompile::runtime::{LockState, Runtime};
use crate::precompile::staking_v1::{
    coldkey_stake_converted, hotkey_stake_converted, no_balance, not_transferred, stake_converted,
    stake_planned, transfer_planned, StakingPrecompile, Transfer, TransferBack,
};
use crate::precompile::staking_v2::approvals::{change, consumption};
use crate::precompile::staking_v2::stake_views::{
    coldkey_stake_answered, hotkey_stake_answered, stake_answered,
};
use crate::primitives::{AccountId, H160, H256};
use crate::u256::{saturated_u64, u256_max, U256};
use vstd::prelude::*;

verus! {

/// Charging takes exactly its cost from the gas that is left, or nothing, and changes nothing else
/// of the call.
pub proof fn law_charging_takes_its_cost_or_nothing<T>(
    before: Handle,
    after: Handle,
    cost: u64,
    result: EvmResult<T>,
)
    requires
        paid(before, after, cost) || unpaid(before, after, cost, result),
    ensures
        after.gas_left == before.gas_left - cost || after.gas_left == before.gas_left,
        after.gas_left == before.gas_left ==> after == before,
        after.caller == before.caller,
        after.apparent_value == before.apparent_value,
{
}

/// An allowance reads back as it was approved.
pub proof fn law_approval_reads_back(
    grants: Grants,
    approver: H160,
    key: (H160, u16, u64),
    amount: nat,
)
    ensures
        granted(approved(grants, approver, key, amount), approver, key) == amount,
{
}

/// Raising an allowance adds to it, and lowering it takes away from it, within the range of the
/// numbers.
pub proof fn law_allowance_arithmetic(
    grants: Grants,
    approver: H160,
    key: (H160, u16, u64),
    amount: nat,
)
    ensures
        granted(grants, approver, key) + amount <= u256_max() ==> granted(
            increased(grants, approver, key, amount),
            approver,
            key,
        ) == granted(grants, approver, key) + amount,
        granted(grants, approver, key) + amount > u256_max() ==> granted(
            increased(grants, approver, key, amount),
            approver,
            key,
        ) == u256_max(),
        amount <= granted(grants, approver, key) ==> granted(
            decreased(grants, approver, key, amount),
            approver,
            key,
        ) == granted(grants, approver, key) - amount,
        amount > granted(grants, approver, key) ==> granted(
            decreased(grants, approver, key, amount),
            approver,
            key,
        ) == 0,
{
}

/// Changing one allowance leaves every other one as it was: of another approver, for another
/// spender, on another subnet, or under another registration of the subnet.
pub proof fn law_other_allowances_stay(
    grants: Grants,
    approver: H160,
    key: (H160, u16, u64),
    amount: nat,
    other_approver: H160,
    other_key: (H160, u16, u64),
)
    requires
        (other_approver, other_key) != (approver, key),
    ensures
        granted(approved(grants, approver, key, amount), other_approver, other_key) == granted(
            grants,
            other_approver,
            other_key,
        ),
        granted(increased(grants, approver, key, amount), other_approver, other_key) == granted(
            grants,
            other_approver,
            other_key,
        ),
        granted(decreased(grants, approver, key, amount), other_approver, other_key) == granted(
            grants,
            other_approver,
            other_key,
        ),
{
}

/// What was approved under one registration of a subnet counts for nothing under another one under
/// which nothing was approved.
pub proof fn law_new_registration_voids_allowances(
    grants: Grants,
    approver: H160,
    spender: H160,
    netuid: u16,
    counter: u64,
    amount: nat,
    new_counter: u64,
)
    requires
        new_counter != counter,
        !grants.contains_key((approver, (spender, netuid, new_counter))),
    ensures
        granted(
            approved(grants, approver, (spender, netuid, counter), amount),
            approver,
            (spender, netuid, new_counter),
        ) == 0,
{
}

/// Whether no allowance of zero is stored.
pub open spec fn none_empty(grants: Grants) -> bool {
    forall|slot: (H160, (H160, u16, u64))| #[trigger]
        grants.contains_key(slot) ==> grants[slot] != 0
}

/// No change stores an allowance of zero.
pub proof fn law_no_empty_allowance_is_stored(
    grants: Grants,
    approver: H160,
    key: (H160, u16, u64),
    amount: nat,
)
    requires
        none_empty(grants),
    ensures
        none_empty(approved(grants, approver, key, amount)),
        none_empty(decreased(grants, approver, key, amount)),
        amount > 0 ==> none_empty(increased(grants, approver, key, amount)),
{
}

/// Lowering an allowance by what it was just raised by leaves all allowances as they were before,
/// where raising it stayed within the range of the numbers.
pub proof fn law_decrease_undoes_increase(
    grants: Grants,
    approver: H160,
    key: (H160, u16, u64),
    amount: nat,
)
    requires
        none_empty(grants),
        granted(grants, approver, key) + amount <= u256_max(),
    ensures
        decreased(increased(grants, approver, key, amount), approver, key, amount) == grants,
{
    let raised = increased(grants, approver, key, amount);
    assert(decreased(raised, approver, key, amount) =~= grants);
}

/// The allowances after an attempt to spend: lowered where enough is allowed, else unchanged.
pub open spec fn after_spending(
    grants: Grants,
    approver: H160,
    key: (H160, u16, u64),
    amount: nat,
) -> Grants {
    if amount <= granted(grants, approver, key) {
        decreased(grants, approver, key, amount)
    } else {
        grants
    }
}

/// The allowances after attempts to spend, one after the other.
pub open spec fn after_all(
    grants: Grants,
    approver: H160,
    key: (H160, u16, u64),
    amounts: Seq<nat>,
) -> Grants
    decreases amounts.len(),
{
    if amounts.len() == 0 {
        grants
    } else {
        after_spending(
            after_all(grants, approver, key, amounts.drop_last()),
            approver,
            key,
            amounts.last(),
        )
    }
}

/// What attempts to spend, one after the other, spend in all.
pub open spec fn spent_in_all(
    grants: Grants,
    approver: H160,
    key: (H160, u16, u64),
    amounts: Seq<nat>,
) -> nat
    decreases amounts.len(),
{
    if amounts.len() == 0 {
        0
    } else {
        let earlier = after_all(grants, approver, key, amounts.drop_last());
        spent_in_all(grants, approver, key, amounts.drop_last()) + if amounts.last() <= granted(
            earlier,
            approver,
            key,
        ) {
            amounts.last()
        } else {
            0
        }
    }
}

/// However often a spender tries, they spend no more than was allowed, and the rest is left.
pub proof fn law_spending_stays_within_the_allowance(
    grants: Grants,
    approver: H160,
    key: (H160, u16, u64),
    amounts: Seq<nat>,
)
    ensures
        spent_in_all(grants, approver, key, amounts) <= granted(grants, approver, key),
        granted(after_all(grants, approver, key, amounts), approver, key) == granted(
            grants,
            approver,
            key,
        ) - spent_in_all(grants, approver, key, amounts),
    decreases amounts.len(),
{
    if amounts.len() > 0 {
        law_spending_stays_within_the_allowance(grants, approver, key, amounts.drop_last());
    }
}

/// A transfer out of an allowance moves no more stake than it takes from the allowance.
pub proof fn law_transfer_moves_no_more_than_it_spends(
    grants: Grants,
    approver: H160,
    key: (H160, u16, u64),
    amount: nat,
)
    requires
        amount <= granted(grants, approver, key),
    ensures
        saturated_u64(amount) <= granted(grants, approver, key) - granted(
            decreased(grants, approver, key, amount),
            approver,
            key,
        ),
{
}

/// An attempt to spend that fails, for want of gas or of allowance, leaves the allowances as they
/// were.
pub proof fn law_failed_spending_leaves_the_allowances<R: Runtime>(
    runtime: R,
    before: Handle,
    after: Handle,
    grants: Grants,
    left: Grants,
    approver: H160,
    spender: H160,
    netuid: u16,
    amount: nat,
    outcome: EvmResult<()>,
)
    requires
        consumption(
            runtime,
            before,
            after,
            grants,
            left,
            approver,
            spender,
            netuid,
            amount,
            outcome,
        ),
        outcome is Err,
    ensures
        left == grants,
{
}

/// A change of an allowance that fails, for want of gas or for a subnet out of range, leaves the
/// allowances as they were.
pub proof fn law_failed_change_leaves_the_allowances<R: Runtime>(
    runtime: R,
    before: Handle,
    after: Handle,
    grants: Grants,
    left: Grants,
    reads: u64,
    spender: H160,
    origin_netuid: nat,
    update: spec_fn((H160, u16, u64)) -> Grants,
    result: EvmResult<()>,
)
    requires
        change(
            runtime,
            before,
            after,
            grants,
            left,
            reads,
            spender,
            origin_netuid,
            update,
            result,
        ),
        result is Err,
    ensures
        left == grants,
{
}

/// The pages of a list from `offset` on, one after the other.
pub open spec fn pages<T>(list: Seq<T>, offset: nat, limit: nat) -> Seq<T>
    decreases list.len() - offset,
{
    if limit == 0 {
        Seq::empty()
    } else if offset + limit >= list.len() {
        page(list, offset, limit)
    } else {
        page(list, offset, limit) + pages(list, offset + limit, limit)
    }
}

/// Pages asked for one after the other give every item of the list once, in order.
pub proof fn law_pages_make_up_the_list<T>(list: Seq<T>, limit: nat)
    requires
        limit > 0,
    ensures
        pages(list, 0, limit) == list,
{
    lemma_pages(list, 0, limit);
    assert(list.skip(0) =~= list);
}

proof fn lemma_pages<T>(list: Seq<T>, offset: nat, limit: nat)
    requires
        limit > 0,
        offset <= list.len(),
    ensures
        pages(list, offset, limit) == list.skip(offset as int),
    decreases list.len() - offset,
{
    if offset + limit < list.len() {
        lemma_pages(list, offset + limit, limit);
    }
    assert(pages(list, offset, limit) =~= list.skip(offset as int));
}

/// A page holds the positions that it was asked for, and no more of them than its limit.
pub proof fn law_page_positions<T>(list: Seq<T>, offset: nat, limit: nat, i: int)
    ensures
        page(list, offset, limit).len() <= limit,
        0 <= i < limit && offset + i < list.len() ==> i < page(list, offset, limit).len() && page(
            list,
            offset,
            limit,
        )[i] == list[offset + i],
{
}

/// The stakes that are answered are those requested that are not zero: none is made up, and none is
/// left out.
pub proof fn law_every_stake_is_answered(
    hotkeys: Seq<H256>,
    stakes: Seq<u64>,
    hotkey: H256,
    stake: u64,
)
    requires
        hotkeys.len() == stakes.len(),
    ensures
        nonzero(hotkeys, stakes).contains((hotkey, stake)) <==> stake != 0 && exists|i: int|
            0 <= i < hotkeys.len() && #[trigger] hotkeys[i] == hotkey && stakes[i] == stake,
{
    let all = hotkeys.zip_with(stakes);
    let kept = |position: (H256, u64)| position.1 != 0;
    let position = (hotkey, stake);
    lemma_filtered(all, kept, position);
    if all.contains(position) {
        let i = choose|i: int| 0 <= i < all.len() && all[i] == position;
        assert(hotkeys[i] == hotkey && stakes[i] == stake);
    }
    if exists|i: int|
        0 <= i < hotkeys.len() && #[trigger] hotkeys[i] == hotkey && stakes[i] == stake {
        let i = choose|i: int|
            0 <= i < hotkeys.len() && #[trigger] hotkeys[i] == hotkey && stakes[i] == stake;
        assert(all[i] == position);
    }
}

proof fn lemma_filtered<A>(list: Seq<A>, kept: spec_fn(A) -> bool, item: A)
    ensures
        list.filter(kept).contains(item) <==> list.contains(item) && kept(item),
    decreases list.len(),
{
    reveal(Seq::filter);
    if list.len() > 0 {
        let shorter = list.drop_last();
        let out = shorter.filter(kept);
        lemma_filtered(shorter, kept, item);
        if shorter.contains(item) {
            let i = choose|i: int| 0 <= i < shorter.len() && shorter[i] == item;
            assert(list[i] == item);
        }
        if list.contains(item) && item != list.last() {
            let i = choose|i: int| 0 <= i < list.len() && list[i] == item;
            assert(shorter[i] == item);
        }
        if list.filter(kept) != out {
            assert(list.filter(kept) == out.push(list.last()));
            if out.contains(item) {
                let i = choose|i: int| 0 <= i < out.len() && out[i] == item;
                assert(out.push(list.last())[i] == item);
            }
            assert(out.push(list.last())[out.len() as int] == list.last());
            if out.push(list.last()).contains(item) && item != list.last() {
                let i = choose|i: int|
                    0 <= i < out.push(list.last()).len() && out.push(list.last())[i] == item;
                assert(out[i] == item);
            }
        }
        assert(list[list.len() - 1] == list.last());
    }
}

/// A total over one subnet is charged no more than the total over all, and every position is
/// charged for.
pub proof fn law_every_position_is_charged(netuids: Seq<u16>, selected: Option<u16>)
    ensures
        position_reads(netuids, selected) <= position_reads(netuids, None),
        22 * netuids.len() <= u64::MAX ==> position_reads(netuids, None) == 22 * netuids.len(),
        2 * netuids.len() <= u64::MAX ==> position_reads(netuids, selected) >= 2 * netuids.len(),
{
    lemma_matched(netuids, selected);
    lemma_matched(netuids, None);
    let some = saturated_u64(matched(netuids, selected));
    let all = saturated_u64(matched(netuids, None));
    let count = saturated_u64(netuids.len());
    lemma_product(some, all, TOTAL_COLDKEY_MATCHED_POSITION_READS);
    assert(all * TOTAL_COLDKEY_MATCHED_POSITION_READS == 20 * all) by (nonlinear_arith);
    assert(count * TOTAL_COLDKEY_POSITION_BASE_READS == 2 * count) by (nonlinear_arith);
}

proof fn lemma_product(a: u64, b: u64, factor: u64)
    requires
        a <= b,
    ensures
        saturated_product(a, factor) <= saturated_product(b, factor),
{
    assert(a * factor <= b * factor) by (nonlinear_arith)
        requires
            a <= b,
    ;
}

proof fn lemma_matched(netuids: Seq<u16>, selected: Option<u16>)
    ensures
        matched(netuids, selected) <= netuids.len(),
        selected is None ==> matched(netuids, selected) == netuids.len(),
    decreases netuids.len(),
{
    reveal(Seq::filter);
    if netuids.len() > 0 {
        lemma_matched(netuids.drop_last(), selected);
    }
}

/// Whether a bucket holds alpha or conviction.
pub open spec fn holds(bucket: Option<LockState>) -> bool {
    match bucket {
        Some(lock) => lock.locked_mass > 0 || lock.conviction > 0,
        None => false,
    }
}

/// The locks on a hotkey are there exactly where some bucket of them holds alpha or conviction.
pub proof fn law_hotkey_lock_is_there_where_a_bucket_is(buckets: Seq<Option<LockState>>)
    ensures
        (saturated_u64(locked_in(buckets)) > 0 || saturated_u128(conviction_in(buckets)) > 0)
            <==> exists|i: int| 0 <= i < buckets.len() && holds(#[trigger] buckets[i]),
    decreases buckets.len(),
{
    if buckets.len() > 0 {
        let shorter = buckets.drop_last();
        law_hotkey_lock_is_there_where_a_bucket_is(shorter);
        if exists|i: int| 0 <= i < shorter.len() && holds(#[trigger] shorter[i]) {
            let i = choose|i: int| 0 <= i < shorter.len() && holds(#[trigger] shorter[i]);
            assert(holds(buckets[i]));
        }
        if exists|i: int| 0 <= i < buckets.len() && holds(#[trigger] buckets[i]) {
            let i = choose|i: int| 0 <= i < buckets.len() && holds(#[trigger] buckets[i]);
            if i < shorter.len() {
                assert(holds(shorter[i]));
            }
        }
        assert(buckets.last() == buckets[buckets.len() - 1]);
    }
}

/// What the older precompile gives back to the caller is what it then stakes. Where the chain makes
/// the native amount `native` of the value sent, for the transfer and for the stake, both are of
/// that amount, cut off at the largest `u64`.
pub proof fn law_stake_is_what_was_given_back<R: Runtime>(
    runtime: R,
    handle: Handle,
    address: H256,
    netuid: nat,
    native: U256,
    planned: EvmResult<Transfer>,
    transfer: TransferBack,
    dispatched: EvmResult<Dispatch>,
)
    requires
        forall|amount: Option<U256>| #[trigger]
            call_ensures(R::into_substrate_balance, (&runtime, handle.apparent_value), amount)
                ==> amount == Some(native),
        forall|amount: EvmResult<U256>| #[trigger]
            call_ensures(R::try_convert_apparent_value, (&runtime, handle.apparent_value), amount)
                ==> answered(amount, native),
        transfer_planned(runtime, handle.caller, handle.apparent_value, planned),
        stake_planned(runtime, handle, address, netuid, transfer, dispatched),
    ensures
        answered(
            planned,
            Transfer {
                source: StakingPrecompile::<R>::INDEX,
                dest: handle.caller,
                value: saturated_u64(native@),
            },
        ) || failed(planned, no_balance()),
        if transfer == TransferBack::Failed {
            failed(dispatched, not_transferred())
        } else {
            match as_u16(netuid) {
                Err(failure) => failed(dispatched, failure),
                Ok(subnet) => answered(
                    dispatched,
                    subtensor(
                        handle.caller,
                        SubtensorCall::AddStake {
                            hotkey: AccountId(address.0),
                            netuid: subnet,
                            amount_staked: saturated_u64(native@),
                        },
                    ),
                ),
            }
        },
{
}

/// The older precompile answers with the stake that the newer one answers with, in EVM units, for
/// the same charge; where the newer one fails, the older one fails alike.
pub proof fn law_older_stake_is_the_newer_in_evm_units<R: Runtime>(
    runtime: R,
    before: Handle,
    after_newer: Handle,
    after_older: Handle,
    hotkey: AccountId,
    coldkey: AccountId,
    netuid: nat,
    stake: u64,
    newer: EvmResult<U256>,
    older: EvmResult<U256>,
)
    requires
        forall|subnet: u16, answer: u64| #[trigger]
            call_ensures(
                R::get_stake_for_hotkey_and_coldkey_on_subnet,
                (&runtime, hotkey, coldkey, subnet),
                answer,
            ) && subnet == netuid ==> answer == stake,
        stake_answered(runtime, before, after_newer, hotkey, coldkey, netuid, newer),
        stake_converted(runtime, before, after_older, hotkey, coldkey, netuid, older),
    ensures
        after_older == after_newer,
        match newer {
            Err(failure) => failed(older, failure),
            Ok(amount) => amount@ == stake && in_evm_units(runtime, stake, older),
        },
{
}

/// Whether the chain gives one answer only for the hotkeys of a coldkey, and for its positions on
/// each hotkey.
pub open spec fn positions_fixed<R: Runtime>(runtime: R, coldkey: AccountId) -> bool {
    &&& forall|a: Vec<AccountId>, b: Vec<AccountId>| #[trigger]
        call_ensures(R::staking_hotkeys, (&runtime, coldkey), a) && #[trigger] call_ensures(
            R::staking_hotkeys,
            (&runtime, coldkey),
            b,
        ) ==> a@ == b@
    &&& forall|hotkey: AccountId, a: Vec<u16>, b: Vec<u16>| #[trigger]
        call_ensures(R::alpha_netuids, (&runtime, hotkey, coldkey), a) && #[trigger] call_ensures(
            R::alpha_netuids,
            (&runtime, hotkey, coldkey),
            b,
        ) ==> a@ == b@
    &&& forall|hotkey: AccountId, a: Vec<u16>, b: Vec<u16>| #[trigger]
        call_ensures(R::alpha_v2_netuids, (&runtime, hotkey, coldkey), a)
            && #[trigger] call_ensures(R::alpha_v2_netuids, (&runtime, hotkey, coldkey), b) ==> a@
            == b@
}

/// Whether the chain gives one answer only for the most subnets that there may be.
pub open spec fn subnet_limit_fixed<R: Runtime>(runtime: R) -> bool {
    forall|a: u64, b: u64| #[trigger]
        call_ensures(R::subnet_limit, (&runtime,), a) && #[trigger] call_ensures(
            R::subnet_limit,
            (&runtime,),
            b,
        ) ==> a == b
}

/// Where the chain's answers are fixed, so are the subnets of a coldkey's positions.
proof fn lemma_positions_fixed<R: Runtime>(
    runtime: R,
    coldkey: AccountId,
    hotkeys: Seq<AccountId>,
    a: Seq<u16>,
    b: Seq<u16>,
)
    requires
        positions_fixed(runtime, coldkey),
        positions(runtime, coldkey, hotkeys, a),
        positions(runtime, coldkey, hotkeys, b),
    ensures
        a == b,
    decreases hotkeys.len(),
{
    if hotkeys.len() > 0 {
        let hotkey = hotkeys.last();
        let (a_older, a_newer) = choose|older: Vec<u16>, newer: Vec<u16>|
            {
                let earlier = a.len() - older@.len() - newer@.len();
                &&& #[trigger] call_ensures(R::alpha_netuids, (&runtime, hotkey, coldkey), older)
                &&& #[trigger] call_ensures(R::alpha_v2_netuids, (&runtime, hotkey, coldkey), newer)
                &&& earlier >= 0
                &&& positions(runtime, coldkey, hotkeys.drop_last(), a.take(earlier))
                &&& a.skip(earlier) == older@ + newer@
            };
        let (b_older, b_newer) = choose|older: Vec<u16>, newer: Vec<u16>|
            {
                let earlier = b.len() - older@.len() - newer@.len();
                &&& #[trigger] call_ensures(R::alpha_netuids, (&runtime, hotkey, coldkey), older)
                &&& #[trigger] call_ensures(R::alpha_v2_netuids, (&runtime, hotkey, coldkey), newer)
                &&& earlier >= 0
                &&& positions(runtime, coldkey, hotkeys.drop_last(), b.take(earlier))
                &&& b.skip(earlier) == older@ + newer@
            };
        let own = a_older@.len() + a_newer@.len();
        let (a_earlier, b_earlier) = (a.take(a.len() - own), b.take(b.len() - own));
        lemma_positions_fixed(runtime, coldkey, hotkeys.drop_last(), a_earlier, b_earlier);
        assert(a =~= a_earlier + a.skip(a.len() - own));
        assert(b =~= b_earlier + b.skip(b.len() - own));
    } else {
        assert(a =~= b);
    }
}

/// Whether two charges both went through, or failed in the same way.
spec fn charged_alike(a: EvmResult<()>, b: EvmResult<()>) -> bool {
    match a {
        Ok(_) => b is Ok,
        Err(failure) => failed(b, failure),
    }
}

/// Where the chain's answers are fixed, charging for a total over a coldkey ends in one way.
proof fn lemma_coldkey_scan_fixed<R: Runtime>(
    runtime: R,
    before: Handle,
    coldkey: AccountId,
    selected: Option<u16>,
    after_a: Handle,
    after_b: Handle,
    a: EvmResult<()>,
    b: EvmResult<()>,
)
    requires
        positions_fixed(runtime, coldkey),
        coldkey_scan(runtime, before, after_a, coldkey, selected, a),
        coldkey_scan(runtime, before, after_b, coldkey, selected, b),
    ensures
        after_a == after_b,
        charged_alike(a, b),
{
    assert forall|hotkeys: Vec<AccountId>, others: Vec<AccountId>, m: Seq<u16>, n: Seq<u16>|
        #[trigger] call_ensures(R::staking_hotkeys, (&runtime, coldkey), hotkeys)
            && #[trigger] call_ensures(R::staking_hotkeys, (&runtime, coldkey), others)
            && #[trigger] positions(runtime, coldkey, hotkeys@, m) && #[trigger] positions(
            runtime,
            coldkey,
            others@,
            n,
        ) implies m == n by {
        lemma_positions_fixed(runtime, coldkey, hotkeys@, m, n);
    }
}

/// The older precompile's total over a coldkey is the newer one's in EVM units: it charges the
/// same, fails where the newer one does, and otherwise converts the same amount.
pub proof fn law_older_coldkey_total_is_the_newer_in_evm_units<R: Runtime>(
    runtime: R,
    before: Handle,
    after_newer: Handle,
    after_older: Handle,
    coldkey: AccountId,
    stake: u64,
    newer: EvmResult<U256>,
    older: EvmResult<U256>,
)
    requires
        positions_fixed(runtime, coldkey),
        forall|answer: u64| #[trigger]
            call_ensures(R::get_total_stake_for_coldkey, (&runtime, coldkey), answer) ==> answer
                == stake,
        coldkey_stake_answered(runtime, before, after_newer, coldkey, newer),
        coldkey_stake_converted(runtime, before, after_older, coldkey, older),
    ensures
        after_older == after_newer,
        match newer {
            Err(failure) => failed(older, failure),
            Ok(amount) => amount@ == stake && in_evm_units(runtime, stake, older),
        },
{
    assert forall|a: EvmResult<()>, b: EvmResult<()>| #[trigger]
        coldkey_scan(runtime, before, after_newer, coldkey, None, a) && #[trigger] coldkey_scan(
            runtime,
            before,
            after_older,
            coldkey,
            None,
            b,
        ) implies after_newer == after_older && charged_alike(a, b) by {
        lemma_coldkey_scan_fixed(runtime, before, coldkey, None, after_newer, after_older, a, b);
    }
}

/// The older precompile's total over a hotkey is the newer one's in EVM units: it charges the same,
/// fails where the newer one does, and otherwise converts the same amount.
pub proof fn law_older_hotkey_total_is_the_newer_in_evm_units<R: Runtime>(
    runtime: R,
    before: Handle,
    after_newer: Handle,
    after_older: Handle,
    hotkey: AccountId,
    stake: u64,
    newer: EvmResult<U256>,
    older: EvmResult<U256>,
)
    requires
        subnet_limit_fixed(runtime),
        forall|answer: u64| #[trigger]
            call_ensures(R::get_total_stake_for_hotkey, (&runtime, hotkey), answer) ==> answer
                == stake,
        hotkey_stake_answered(runtime, before, after_newer, hotkey, newer),
        hotkey_stake_converted(runtime, before, after_older, hotkey, older),
    ensures
        after_older == after_newer,
        match newer {
            Err(failure) => failed(older, failure),
            Ok(amount) => amount@ == stake && in_evm_units(runtime, stake, older),
        },
{
    assert forall|a: EvmResult<()>, b: EvmResult<()>| #[trigger]
        hotkey_scan(runtime, before, after_newer, a) && #[trigger] hotkey_scan(
            runtime,
            before,
            after_older,
            b,
        ) implies after_newer == after_older && charged_alike(a, b) by {
    }
}

} // verus!
