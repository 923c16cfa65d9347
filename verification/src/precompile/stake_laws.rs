//! What the views of stake answer, and what they charge, on a chain that gives one answer only.
use crate::precompile::accounting::{matched, positions};
use crate::precompile::dispatch_laws::{reverts, stopped};
use crate::precompile::failure::{EvmResult, ExitError, PrecompileFailure};
use crate::precompile::handle::Handle;
use crate::precompile::lists::{
    nonzero, nonzero_positions, numbers, on_subnet, saturating_total, staked_validators, sum, widened,
};
use crate::precompile::runtime::Runtime;
use crate::precompile::staking_v1::StakingPrecompile;
use crate::precompile::staking_v2::stake_views::{payouts_read, stakes_read};
use crate::precompile::staking_v2::StakingPrecompileV2;
use crate::precompile::view_laws::{gas, out_of_gas, pays};
use crate::primitives::{AccountId, H256};
use crate::selection::{lemma_picks_last, lemma_picks_none, picks};
use crate::u256::U256;
use vstd::prelude::*;

verus! {

/// A number as far as a `u64` holds it.
pub open spec fn cap(value: int) -> int {
    if value > 0xffff_ffff_ffff_ffff {
        0xffff_ffff_ffff_ffff
    } else {
        value
    }
}

/// Whether a call charged `first` and then `second`: it ends for want of gas before the charge that
/// the gas left does not pay, and keeps what it charged before.
pub open spec fn pays_twice<T>(
    before: Handle,
    after: Handle,
    first: int,
    second: int,
    result: EvmResult<T>,
) -> bool {
    if first > before.gas_left {
        out_of_gas(result) && after == before
    } else if second > before.gas_left - first {
        out_of_gas(result) && pays(before, after, first)
    } else {
        pays(before, after, first + second)
    }
}

/// The subnets of the positions on a list of hotkeys, those of the older table before those of the
/// newer one for each hotkey.
pub open spec fn all_positions(
    hotkeys: Seq<AccountId>,
    older: spec_fn(AccountId) -> Seq<u16>,
    newer: spec_fn(AccountId) -> Seq<u16>,
) -> Seq<u16> {
    hotkeys.map_values(|hotkey: AccountId| older(hotkey) + newer(hotkey)).flatten_alt()
}

/// Whether the chain lists the positions of a coldkey as `older` and `newer` do.
pub open spec fn lists_positions<R: Runtime>(
    runtime: R,
    coldkey: AccountId,
    hotkeys: Seq<AccountId>,
    older: spec_fn(AccountId) -> Seq<u16>,
    newer: spec_fn(AccountId) -> Seq<u16>,
) -> bool {
    &&& forall|answer: Vec<AccountId>| #[trigger]
        call_ensures(R::staking_hotkeys, (&runtime, coldkey), answer) ==> answer@ == hotkeys
    &&& forall|hotkey: AccountId, answer: Vec<u16>| #[trigger]
        call_ensures(R::alpha_netuids, (&runtime, hotkey, coldkey), answer) ==> answer@ == older(
            hotkey,
        )
    &&& forall|hotkey: AccountId, answer: Vec<u16>| #[trigger]
        call_ensures(R::alpha_v2_netuids, (&runtime, hotkey, coldkey), answer) ==> answer@ == newer(
            hotkey,
        )
}

/// The positions that are charged for are those that the chain lists.
proof fn lemma_positions<R: Runtime>(
    runtime: R,
    coldkey: AccountId,
    all: Seq<AccountId>,
    hotkeys: Seq<AccountId>,
    older: spec_fn(AccountId) -> Seq<u16>,
    newer: spec_fn(AccountId) -> Seq<u16>,
    netuids: Seq<u16>,
)
    requires
        lists_positions(runtime, coldkey, all, older, newer),
        positions(runtime, coldkey, hotkeys, netuids),
    ensures
        netuids == all_positions(hotkeys, older, newer),
    decreases hotkeys.len(),
{
    let lists = |hotkey: AccountId| older(hotkey) + newer(hotkey);
    if hotkeys.len() > 0 {
        let hotkey = hotkeys.last();
        let (a, b) = choose|a: Vec<u16>, b: Vec<u16>|
            {
                let earlier = netuids.len() - a@.len() - b@.len();
                &&& #[trigger] call_ensures(R::alpha_netuids, (&runtime, hotkey, coldkey), a)
                &&& #[trigger] call_ensures(R::alpha_v2_netuids, (&runtime, hotkey, coldkey), b)
                &&& earlier >= 0
                &&& positions(runtime, coldkey, hotkeys.drop_last(), netuids.take(earlier))
                &&& netuids.skip(earlier) == a@ + b@
            };
        let earlier = netuids.len() - a@.len() - b@.len();
        lemma_positions(
            runtime,
            coldkey,
            all,
            hotkeys.drop_last(),
            older,
            newer,
            netuids.take(earlier),
        );
        let mapped = hotkeys.map_values(|hotkey: AccountId| older(hotkey) + newer(hotkey));
        let fewer = hotkeys.drop_last().map_values(
            |hotkey: AccountId| older(hotkey) + newer(hotkey),
        );
        assert(mapped.drop_last() =~= fewer);
        assert(mapped.last() == a@ + b@);
        assert(netuids =~= netuids.take(earlier) + netuids.skip(earlier));
    }
    assert(netuids =~= all_positions(hotkeys, older, newer));
}

/// How many positions count: all of them, or those on the selected subnet.
pub proof fn lemma_matched(netuids: Seq<u16>, selected: Option<u16>)
    ensures
        selected is None ==> matched(netuids, selected) == netuids.len(),
        selected matches Some(netuid) ==> matched(netuids, selected)
            == netuids.to_multiset().count(netuid),
    decreases netuids.len(),
{
    reveal(Seq::filter);
    netuids.to_multiset_ensures();
    if netuids.len() > 0 {
        let fewer = netuids.drop_last();
        lemma_matched(fewer, selected);
        fewer.to_multiset_ensures();
        assert(netuids =~= fewer.push(netuids.last()));
        assert(netuids.to_multiset() =~= fewer.to_multiset().insert(netuids.last()));
    }
}

/// What is charged for the totals over a coldkey.
pub proof fn lemma_all_positions<R: Runtime>(
    runtime: R,
    coldkey: AccountId,
    hotkeys: Seq<AccountId>,
    older: spec_fn(AccountId) -> Seq<u16>,
    newer: spec_fn(AccountId) -> Seq<u16>,
)
    requires
        lists_positions(runtime, coldkey, hotkeys, older, newer),
    ensures
        forall|listed: Seq<AccountId>, netuids: Seq<u16>|
            listed == hotkeys && #[trigger] positions(runtime, coldkey, listed, netuids)
                ==> netuids == all_positions(hotkeys, older, newer),
{
    assert forall|listed: Seq<AccountId>, netuids: Seq<u16>|
        listed == hotkeys && #[trigger] positions(runtime, coldkey, listed, netuids) implies netuids
        == all_positions(hotkeys, older, newer) by {
        lemma_positions(runtime, coldkey, hotkeys, hotkeys, older, newer, netuids);
    }
}

/// Whether `at` are the positions of the stakes that are not zero, from the first to the last.
pub open spec fn with_stake(at: Seq<int>, stakes: Seq<u64>) -> bool {
    picks(at, stakes, |stake: u64| stake != 0)
}

/// Whether `at` are the positions of the rows of a subnet, from the first to the last.
pub open spec fn rows_of(at: Seq<int>, rows: Seq<(AccountId, u16)>, netuid: u16) -> bool {
    picks(at, rows, |row: (AccountId, u16)| row.1 == netuid)
}

/// Whether a call gave back the number `stake`.
pub open spec fn answers(result: EvmResult<U256>, stake: u64) -> bool {
    result is Ok && result->Ok_0@ == stake
}

/// Whether a result is an amount in EVM units, or the failure where the chain has none for it.
pub open spec fn converted(result: EvmResult<U256>, amount: Option<U256>) -> bool {
    match amount {
        Some(amount) => result == Ok::<U256, PrecompileFailure>(amount),
        None => result == Err::<U256, PrecompileFailure>(
            PrecompileFailure::Error { exit_status: ExitError::InvalidRange },
        ),
    }
}

/// All stake of the coldkey is answered. Two reads are charged for its hotkeys, and then 22 for each
/// of its positions.
pub proof fn law_get_total_coldkey_stake<R: Runtime>(
    precompile: StakingPrecompileV2<R>,
    handle: &mut Handle,
    coldkey: H256,
    hotkeys: Seq<AccountId>,
    older: spec_fn(AccountId) -> Seq<u16>,
    newer: spec_fn(AccountId) -> Seq<u16>,
    stake: u64,
    result: EvmResult<U256>,
)
    requires
        call_ensures(
            StakingPrecompileV2::<R>::get_total_coldkey_stake,
            (&precompile, handle, coldkey),
            result,
        ),
        lists_positions(precompile.runtime, AccountId(coldkey.0), hotkeys, older, newer),
        forall|answer: u64| #[trigger]
            call_ensures(
                R::get_total_stake_for_coldkey,
                (&precompile.runtime, AccountId(coldkey.0)),
                answer,
            ) ==> answer == stake,
    ensures
        ({
            let price = old(handle).db_read_gas as int;
            let count = all_positions(hotkeys, older, newer).len() as int;
            let first = gas(price, 2);
            let second = gas(price, cap(22 * count));
            &&& pays_twice(*old(handle), *final(handle), first, second, result)
            &&& first + second <= old(handle).gas_left ==> answers(result, stake)
        }),
{
    let all = all_positions(hotkeys, older, newer);
    lemma_all_positions(precompile.runtime, AccountId(coldkey.0), hotkeys, older, newer);
    lemma_matched(all, None);
}

/// The older precompile answers with all stake of the coldkey in EVM units, charged as the newer
/// one charges it.
pub proof fn law_older_get_total_coldkey_stake<R: Runtime>(
    precompile: StakingPrecompile<R>,
    handle: &mut Handle,
    coldkey: H256,
    hotkeys: Seq<AccountId>,
    older: spec_fn(AccountId) -> Seq<u16>,
    newer: spec_fn(AccountId) -> Seq<u16>,
    stake: u64,
    evm: spec_fn(u64) -> Option<U256>,
    result: EvmResult<U256>,
)
    requires
        call_ensures(
            StakingPrecompile::<R>::get_total_coldkey_stake,
            (&precompile, handle, coldkey),
            result,
        ),
        lists_positions(precompile.runtime, AccountId(coldkey.0), hotkeys, older, newer),
        forall|answer: u64| #[trigger]
            call_ensures(
                R::get_total_stake_for_coldkey,
                (&precompile.runtime, AccountId(coldkey.0)),
                answer,
            ) ==> answer == stake,
        forall|amount: u64, answer: Option<U256>| #[trigger]
            call_ensures(R::into_evm_balance, (&precompile.runtime, amount), answer) ==> answer
                == evm(amount),
    ensures
        ({
            let price = old(handle).db_read_gas as int;
            let count = all_positions(hotkeys, older, newer).len() as int;
            let first = gas(price, 2);
            let second = gas(price, cap(22 * count));
            &&& pays_twice(*old(handle), *final(handle), first, second, result)
            &&& first + second <= old(handle).gas_left ==> converted(result, evm(stake))
        }),
{
    let all = all_positions(hotkeys, older, newer);
    lemma_all_positions(precompile.runtime, AccountId(coldkey.0), hotkeys, older, newer);
    lemma_matched(all, None);
}

/// All stake on the hotkey is answered. One read is charged for the most subnets that there may be,
/// and then five for each of them.
pub proof fn law_get_total_hotkey_stake<R: Runtime>(
    precompile: StakingPrecompileV2<R>,
    handle: &mut Handle,
    hotkey: H256,
    limit: u64,
    stake: u64,
    result: EvmResult<U256>,
)
    requires
        call_ensures(
            StakingPrecompileV2::<R>::get_total_hotkey_stake,
            (&precompile, handle, hotkey),
            result,
        ),
        forall|answer: u64| #[trigger]
            call_ensures(R::subnet_limit, (&precompile.runtime,), answer) ==> answer == limit,
        forall|answer: u64| #[trigger]
            call_ensures(
                R::get_total_stake_for_hotkey,
                (&precompile.runtime, AccountId(hotkey.0)),
                answer,
            ) ==> answer == stake,
    ensures
        ({
            let price = old(handle).db_read_gas as int;
            let first = gas(price, 1);
            let second = gas(price, cap(5 * limit));
            &&& pays_twice(*old(handle), *final(handle), first, second, result)
            &&& first + second <= old(handle).gas_left ==> answers(result, stake)
        }),
{
}

/// The older precompile answers with all stake on the hotkey in EVM units, charged as the newer one
/// charges it.
pub proof fn law_older_get_total_hotkey_stake<R: Runtime>(
    precompile: StakingPrecompile<R>,
    handle: &mut Handle,
    hotkey: H256,
    limit: u64,
    stake: u64,
    evm: spec_fn(u64) -> Option<U256>,
    result: EvmResult<U256>,
)
    requires
        call_ensures(
            StakingPrecompile::<R>::get_total_hotkey_stake,
            (&precompile, handle, hotkey),
            result,
        ),
        forall|answer: u64| #[trigger]
            call_ensures(R::subnet_limit, (&precompile.runtime,), answer) ==> answer == limit,
        forall|answer: u64| #[trigger]
            call_ensures(
                R::get_total_stake_for_hotkey,
                (&precompile.runtime, AccountId(hotkey.0)),
                answer,
            ) ==> answer == stake,
        forall|amount: u64, answer: Option<U256>| #[trigger]
            call_ensures(R::into_evm_balance, (&precompile.runtime, amount), answer) ==> answer
                == evm(amount),
    ensures
        ({
            let price = old(handle).db_read_gas as int;
            let first = gas(price, 1);
            let second = gas(price, cap(5 * limit));
            &&& pays_twice(*old(handle), *final(handle), first, second, result)
            &&& first + second <= old(handle).gas_left ==> converted(result, evm(stake))
        }),
{
}

/// All stake of the coldkey on one subnet is answered. Every position is charged two reads, and one
/// on that subnet twenty more; a subnet out of range is refused before anything is charged.
pub proof fn law_get_total_coldkey_stake_on_subnet<R: Runtime>(
    precompile: StakingPrecompileV2<R>,
    handle: &mut Handle,
    coldkey: H256,
    netuid: U256,
    hotkeys: Seq<AccountId>,
    older: spec_fn(AccountId) -> Seq<u16>,
    newer: spec_fn(AccountId) -> Seq<u16>,
    stake: u64,
    result: EvmResult<U256>,
)
    requires
        call_ensures(
            StakingPrecompileV2::<R>::get_total_coldkey_stake_on_subnet,
            (&precompile, handle, coldkey, netuid),
            result,
        ),
        lists_positions(precompile.runtime, AccountId(coldkey.0), hotkeys, older, newer),
        forall|answer: u64| #[trigger]
            call_ensures(
                R::get_total_stake_for_coldkey_on_subnet,
                (&precompile.runtime, AccountId(coldkey.0), netuid@ as u16),
                answer,
            ) ==> answer == stake,
    ensures
        ({
            let price = old(handle).db_read_gas as int;
            let all = all_positions(hotkeys, older, newer);
            let there = all.to_multiset().count(netuid@ as u16) as int;
            let first = gas(price, 2);
            let second = gas(price, cap(2 * all.len() + 20 * there));
            if netuid@ > 0xffff {
                stopped(result, "the value is outside of u16 bounds") && *final(handle) == *old(
                    handle,
                )
            } else {
                &&& pays_twice(*old(handle), *final(handle), first, second, result)
                &&& first + second <= old(handle).gas_left ==> answers(result, stake)
            }
        }),
{
    let all = all_positions(hotkeys, older, newer);
    lemma_all_positions(precompile.runtime, AccountId(coldkey.0), hotkeys, older, newer);
    lemma_matched(all, Some(netuid@ as u16));
}

/// The older precompile answers with the stake of the coldkey on the hotkey of the subnet, in EVM
/// units. Seven reads are charged for before.
pub proof fn law_older_get_stake<R: Runtime>(
    precompile: StakingPrecompile<R>,
    handle: &mut Handle,
    hotkey: H256,
    coldkey: H256,
    netuid: U256,
    stake: u64,
    evm: spec_fn(u64) -> Option<U256>,
    result: EvmResult<U256>,
)
    requires
        call_ensures(
            StakingPrecompile::<R>::get_stake,
            (&precompile, handle, hotkey, coldkey, netuid),
            result,
        ),
        forall|answer: u64| #[trigger]
            call_ensures(
                R::get_stake_for_hotkey_and_coldkey_on_subnet,
                (
                    &precompile.runtime,
                    AccountId(hotkey.0),
                    AccountId(coldkey.0),
                    netuid@ as u16,
                ),
                answer,
            ) ==> answer == stake,
        forall|amount: u64, answer: Option<U256>| #[trigger]
            call_ensures(R::into_evm_balance, (&precompile.runtime, amount), answer) ==> answer
                == evm(amount),
    ensures
        pays(*old(handle), *final(handle), gas(old(handle).db_read_gas as int, 7)),
        if gas(old(handle).db_read_gas as int, 7) > old(handle).gas_left {
            out_of_gas(result)
        } else if netuid@ > 0xffff {
            stopped(result, "the value is outside of u16 bounds")
        } else {
            converted(result, evm(stake))
        },
{
}

/// A last stake is picked after those before it, if it is not zero.
proof fn lemma_with_stake(at: Seq<int>, stakes: Seq<u64>)
    requires
        stakes.len() > 0,
        with_stake(at, stakes.drop_last()),
    ensures
        stakes.last() != 0 ==> with_stake(at.push(stakes.len() - 1), stakes),
        stakes.last() == 0 ==> with_stake(at, stakes),
{
    let keep = |stake: u64| stake != 0;
    assert(picks(at, stakes.drop_last(), keep));
    lemma_picks_last(at, stakes, keep);
}

/// A last row is picked after those before it, if it is one of the subnet.
proof fn lemma_rows_of(at: Seq<int>, rows: Seq<(AccountId, u16)>, netuid: u16)
    requires
        rows.len() > 0,
        rows_of(at, rows.drop_last(), netuid),
    ensures
        rows.last().1 == netuid ==> rows_of(at.push(rows.len() - 1), rows, netuid),
        rows.last().1 != netuid ==> rows_of(at, rows, netuid),
{
    let keep = |row: (AccountId, u16)| row.1 == netuid;
    assert(picks(at, rows.drop_last(), keep));
    lemma_picks_last(at, rows, keep);
}

/// The hotkeys with stake that are answered stand at the positions of those that have any.
proof fn lemma_nonzero(hotkeys: Seq<H256>, stakes: Seq<u64>) -> (at: Seq<int>)
    requires
        hotkeys.len() == stakes.len(),
    ensures
        with_stake(at, stakes),
        nonzero(hotkeys, stakes).len() == at.len(),
        forall|k: int|
            0 <= k < at.len() ==> #[trigger] nonzero(hotkeys, stakes)[k] == (
                hotkeys[at[k]],
                stakes[at[k]],
            ),
    decreases hotkeys.len(),
{
    reveal(Seq::filter);
    let pairs = hotkeys.zip_with(stakes);
    if hotkeys.len() == 0 {
        lemma_picks_none(stakes, |stake: u64| stake != 0);
        Seq::empty()
    } else {
        let shorter = hotkeys.drop_last();
        let fewer = stakes.drop_last();
        let at = lemma_nonzero(shorter, fewer);
        assert(pairs.drop_last() =~= shorter.zip_with(fewer));
        lemma_with_stake(at, stakes);
        let some = nonzero(shorter, fewer);
        let all = nonzero(hotkeys, stakes);
        assert(pairs.last() == (hotkeys.last(), stakes.last()));
        if stakes.last() != 0 {
            let more = at.push(stakes.len() - 1);
            assert(all =~= some.push((hotkeys.last(), stakes.last())));
            assert forall|k: int| 0 <= k < more.len() implies #[trigger] all[k] == (
                hotkeys[more[k]],
                stakes[more[k]],
            ) by {
                if k < at.len() {
                    assert(all[k] == some[k]);
                    assert(more[k] == at[k]);
                }
            }
            more
        } else {
            assert(all =~= some);
            assert forall|k: int| 0 <= k < at.len() implies #[trigger] all[k] == (
                hotkeys[at[k]],
                stakes[at[k]],
            ) by {
                assert(all[k] == some[k]);
            }
            at
        }
    }
}

/// Whether the answer lists each of the hotkeys that have stake, with its stake, in the order in
/// which they stand.
pub open spec fn lists_stakes(
    hotkeys: Seq<H256>,
    stakes: Seq<u64>,
    given: Seq<(H256, U256)>,
) -> bool {
    exists|at: Seq<int>| #[trigger]
        with_stake(at, stakes) && given.len() == at.len() && forall|k: int|
            0 <= k < at.len() ==> (#[trigger] given[k]).0 == hotkeys[at[k]] && given[k].1@
                == stakes[at[k]]
}

/// What is listed is read off the positions that are not zero.
proof fn lemma_lists_stakes(hotkeys: Seq<H256>, stakes: Seq<u64>, given: Seq<(H256, U256)>)
    requires
        hotkeys.len() == stakes.len(),
        numbers(given) == widened(nonzero(hotkeys, stakes)),
    ensures
        lists_stakes(hotkeys, stakes, given),
{
    let at = lemma_nonzero(hotkeys, stakes);
    assert(given.len() == numbers(given).len());
    assert forall|k: int| 0 <= k < at.len() implies (#[trigger] given[k]).0 == hotkeys[at[k]]
        && given[k].1@ == stakes[at[k]] by {
        assert(numbers(given)[k] == (given[k].0, given[k].1@));
        assert(nonzero(hotkeys, stakes)[k] == (hotkeys[at[k]], stakes[at[k]]));
    }
    assert(with_stake(at, stakes));
}

/// Of hotkeys and their stakes, those with stake are listed, each with its own, in their order.
pub proof fn law_nonzero_positions(
    hotkeys: Vec<H256>,
    stakes: Vec<u64>,
    given: Vec<(H256, U256)>,
)
    requires
        hotkeys@.len() == stakes@.len(),
        call_ensures(nonzero_positions, (&hotkeys, &stakes), given),
    ensures
        lists_stakes(hotkeys@, stakes@, given@),
{
    lemma_lists_stakes(hotkeys@, stakes@, given@);
}

/// The stakes of a coldkey on the hotkeys asked for are answered in the order asked for, without
/// those that are zero. More than 64 hotkeys are refused before anything is charged; then the list
/// is charged for, 64 gas for each of its hotkeys; a hotkey that occurs twice is refused before the
/// reads are charged for, seven for each.
pub proof fn law_get_stake_info_for_coldkey_and_netuid<R: Runtime>(
    precompile: StakingPrecompileV2<R>,
    handle: &mut Handle,
    coldkey: H256,
    netuid: U256,
    hotkeys: Vec<H256>,
    stake: spec_fn(AccountId) -> u64,
    result: EvmResult<Vec<(H256, U256)>>,
)
    requires
        call_ensures(
            StakingPrecompileV2::<R>::get_stake_info_for_coldkey_and_netuid,
            (&precompile, handle, coldkey, netuid, hotkeys),
            result,
        ),
        forall|hotkey: AccountId, answer: u64| #[trigger]
            call_ensures(
                R::get_stake_for_hotkey_and_coldkey_on_subnet,
                (&precompile.runtime, hotkey, AccountId(coldkey.0), netuid@ as u16),
                answer,
            ) ==> answer == stake(hotkey),
    ensures
        ({
            let before = *old(handle);
            let after = *final(handle);
            let count = hotkeys@.len() as int;
            let reads = gas(before.db_read_gas as int, 7 * count);
            let stakes = Seq::new(hotkeys@.len(), |i: int| stake(AccountId(hotkeys@[i].0)));
            if count > 64 {
                reverts(result, "hotkeys: Value is too large for length") && after == before
            } else if 64 * count > before.gas_left {
                out_of_gas(result) && after == before
            } else if netuid@ > 0xffff {
                stopped(result, "the value is outside of u16 bounds") && pays(
                    before,
                    after,
                    64 * count,
                )
            } else if exists|i: int, j: int|
                0 <= i < j < count && hotkeys@[i].0 == hotkeys@[j].0 {
                reverts(result, "duplicate stake info hotkey") && pays(before, after, 64 * count)
            } else if reads > before.gas_left - 64 * count {
                out_of_gas(result) && pays(before, after, 64 * count)
            } else {
                &&& pays(before, after, 64 * count + reads)
                &&& result matches Ok(given)
                &&& lists_stakes(hotkeys@, stakes, given@)
            }
        }),
{
    lemma_repeats(hotkeys@);
    let stakes = Seq::new(hotkeys@.len(), |i: int| stake(AccountId(hotkeys@[i].0)));
    assert forall|read: Seq<u64>| #[trigger]
        stakes_read(
            precompile.runtime,
            hotkeys@,
            AccountId(coldkey.0),
            netuid@ as u16,
            read,
        ) implies read == stakes by {
        assert(read =~= stakes);
    }
    if let Ok(given) = result {
        if numbers(given@) == widened(nonzero(hotkeys@, stakes)) {
            lemma_lists_stakes(hotkeys@, stakes, given@);
        }
    }
}

/// Whether some hotkey of a list occurs twice.
proof fn lemma_repeats(hotkeys: Seq<H256>)
    ensures
        hotkeys.no_duplicates() <==> !(exists|i: int, j: int|
            0 <= i < j < hotkeys.len() && hotkeys[i].0 == hotkeys[j].0),
{
    if exists|i: int, j: int| 0 <= i < j < hotkeys.len() && hotkeys[i].0 == hotkeys[j].0 {
        let (i, j) = choose|i: int, j: int|
            0 <= i < j < hotkeys.len() && hotkeys[i].0 == hotkeys[j].0;
        assert(hotkeys[i] == hotkeys[j]);
    }
}

/// The coldkeys that are answered stand at the positions of the rows of the subnet.
proof fn lemma_on_subnet(rows: Seq<(AccountId, u16)>, netuid: u16) -> (at: Seq<int>)
    ensures
        rows_of(at, rows, netuid),
        on_subnet(rows, netuid).len() == at.len(),
        forall|k: int|
            0 <= k < at.len() ==> (#[trigger] on_subnet(rows, netuid)[k]).0 == rows[at[k]].0.0,
    decreases rows.len(),
{
    reveal(Seq::filter);
    if rows.len() == 0 {
        lemma_picks_none(rows, |row: (AccountId, u16)| row.1 == netuid);
        Seq::empty()
    } else {
        let at = lemma_on_subnet(rows.drop_last(), netuid);
        lemma_rows_of(at, rows, netuid);
        let some = on_subnet(rows.drop_last(), netuid);
        let all = on_subnet(rows, netuid);
        if rows.last().1 == netuid {
            let more = at.push(rows.len() - 1);
            assert(all =~= some.push(H256(rows.last().0.0)));
            assert forall|k: int| 0 <= k < more.len() implies (#[trigger] all[k]).0
                == rows[more[k]].0.0 by {
                if k < at.len() {
                    assert(all[k] == some[k]);
                    assert(more[k] == at[k]);
                }
            }
            more
        } else {
            assert(all =~= some);
            assert forall|k: int| 0 <= k < at.len() implies (#[trigger] all[k]).0
                == rows[at[k]].0.0 by {
                assert(all[k] == some[k]);
            }
            at
        }
    }
}

/// Whether walking over rows at `price` each ends as it should: with the coldkeys of the rows of the
/// subnet, in their order, where the gas pays for all rows, and otherwise for want of gas at the
/// first row that it does not pay for.
pub open spec fn walks(
    before: Handle,
    after: Handle,
    rows: Seq<(AccountId, u16)>,
    netuid: u16,
    result: EvmResult<Vec<H256>>,
) -> bool {
    let price = before.db_read_gas as int;
    if price * rows.len() <= before.gas_left {
        &&& pays(before, after, price * rows.len())
        &&& result matches Ok(given)
        &&& exists|at: Seq<int>| #[trigger]
            rows_of(at, rows, netuid) && given@.len() == at.len()
                && forall|k: int|
                0 <= k < at.len() ==> (#[trigger] given@[k]).0 == rows[at[k]].0.0
    } else {
        &&& out_of_gas(result)
        &&& exists|paid: int|
            0 <= paid < rows.len() && price * paid <= before.gas_left < #[trigger] (price * (paid
                + 1)) && pays(before, after, price * paid)
    }
}

/// Walking over the rows of a hotkey charges one read for each, and answers with the coldkeys on the
/// subnet.
pub proof fn law_staked_validators(
    handle: &mut Handle,
    rows: Vec<(AccountId, u16)>,
    netuid: u16,
    result: EvmResult<Vec<H256>>,
)
    requires
        call_ensures(staked_validators, (handle, &rows, netuid), result),
    ensures
        walks(*old(handle), *final(handle), rows@, netuid, result),
{
    lemma_walks(rows@, netuid);
    assert(old(handle).db_read_gas * 1 == old(handle).db_read_gas);
}

/// The rows of a subnet have positions.
proof fn lemma_walks(rows: Seq<(AccountId, u16)>, netuid: u16)
    ensures
        exists|at: Seq<int>| #[trigger]
            rows_of(at, rows, netuid) && on_subnet(
                rows,
                netuid,
            ).len() == at.len() && forall|k: int|
                0 <= k < at.len() ==> (#[trigger] on_subnet(rows, netuid)[k]).0 == rows[at[k]].0.0,
{
    let at = lemma_on_subnet(rows, netuid);
    assert(rows_of(at, rows, netuid));
}

/// The coldkeys with a position on the hotkey of the subnet are answered, one read being charged for
/// each position of the hotkey on any subnet; a subnet out of range is refused before anything is
/// charged.
pub proof fn law_get_alpha_staked_validators<R: Runtime>(
    precompile: StakingPrecompileV2<R>,
    handle: &mut Handle,
    hotkey: H256,
    netuid: U256,
    rows: Seq<(AccountId, u16)>,
    result: EvmResult<Vec<H256>>,
)
    requires
        call_ensures(
            StakingPrecompileV2::<R>::get_alpha_staked_validators,
            (&precompile, handle, hotkey, netuid),
            result,
        ),
        forall|answer: Vec<(AccountId, u16)>| #[trigger]
            call_ensures(
                R::alpha_iter_single_prefix,
                (&precompile.runtime, AccountId(hotkey.0)),
                answer,
            ) ==> answer@ == rows,
    ensures
        if netuid@ > 0xffff {
            stopped(result, "the value is outside of u16 bounds") && *final(handle) == *old(handle)
        } else {
            walks(*old(handle), *final(handle), rows, netuid@ as u16, result)
        },
{
    lemma_walks(rows, netuid@ as u16);
    assert(old(handle).db_read_gas * 1 == old(handle).db_read_gas);
}

/// A page of a coldkey's hotkeys holds those from the offset on, as many as asked for and there are,
/// in their order, and tells how many there are in all. A page of none, or of more than 64, is
/// refused before anything is charged.
pub proof fn law_get_staking_hotkeys<R: Runtime>(
    precompile: StakingPrecompileV2<R>,
    handle: &mut Handle,
    coldkey: H256,
    offset: u64,
    limit: u16,
    hotkeys: Seq<AccountId>,
    result: EvmResult<(Vec<H256>, u64)>,
)
    requires
        call_ensures(
            StakingPrecompileV2::<R>::get_staking_hotkeys,
            (&precompile, handle, coldkey, offset, limit),
            result,
        ),
        forall|answer: Vec<AccountId>| #[trigger]
            call_ensures(
                R::staking_hotkeys,
                (&precompile.runtime, AccountId(coldkey.0)),
                answer,
            ) ==> answer@ == hotkeys,
    ensures
        if limit == 0 {
            reverts(result, "staking hotkeys page limit must be nonzero") && *final(handle) == *old(
                handle,
            )
        } else if limit > 64 {
            reverts(result, "staking hotkeys page limit exceeds 64") && *final(handle) == *old(
                handle,
            )
        } else if gas(old(handle).db_read_gas as int, 1) > old(handle).gas_left {
            out_of_gas(result) && *final(handle) == *old(handle)
        } else {
            &&& pays(*old(handle), *final(handle), gas(old(handle).db_read_gas as int, 1))
            &&& result matches Ok(given)
            &&& given.1 == hotkeys.len()
            &&& given.0@.len() == if offset >= hotkeys.len() {
                0
            } else if offset + limit > hotkeys.len() {
                hotkeys.len() - offset
            } else {
                limit as int
            }
            &&& forall|i: int|
                0 <= i < given.0@.len() ==> (#[trigger] given.0@[i]).0 == hotkeys[offset + i].0
        },
{
}

/// What a validator's basket owes a coldkey is answered in EVM units. One read is charged, and 20
/// for each subnet that there may be and one more.
pub proof fn law_get_unclaimed_root_tao_by_hotkey<R: Runtime>(
    precompile: StakingPrecompileV2<R>,
    handle: &mut Handle,
    coldkey: H256,
    hotkey: H256,
    limit: u64,
    owed: u64,
    evm: spec_fn(u64) -> Option<U256>,
    result: EvmResult<U256>,
)
    requires
        call_ensures(
            StakingPrecompileV2::<R>::get_unclaimed_root_tao_by_hotkey,
            (&precompile, handle, coldkey, hotkey),
            result,
        ),
        forall|answer: u64| #[trigger]
            call_ensures(R::subnet_limit, (&precompile.runtime,), answer) ==> answer == limit,
        forall|answer: u64| #[trigger]
            call_ensures(
                R::get_basket_payout_tao,
                (&precompile.runtime, AccountId(hotkey.0), AccountId(coldkey.0)),
                answer,
            ) ==> answer == owed,
        forall|amount: u64, answer: Option<U256>| #[trigger]
            call_ensures(R::into_evm_balance, (&precompile.runtime, amount), answer) ==> answer
                == evm(amount),
    ensures
        ({
            let cost = gas(old(handle).db_read_gas as int, cap(1 + 20 * (limit + 1)));
            &&& pays(*old(handle), *final(handle), cost)
            &&& if cost > old(handle).gas_left {
                out_of_gas(result)
            } else {
                converted(result, evm(owed))
            }
        }),
{
}

/// The sum of amounts.
pub open spec fn added(amounts: Seq<u64>) -> int
    decreases amounts.len(),
{
    if amounts.len() == 0 {
        0
    } else {
        amounts[0] + added(amounts.skip(1))
    }
}

/// The sum from the first amount on is the sum up to the last.
proof fn lemma_added(amounts: Seq<u64>)
    ensures
        added(amounts) == sum(amounts),
    decreases amounts.len(),
{
    if amounts.len() == 1 {
        assert(amounts.skip(1) =~= Seq::empty());
        assert(amounts.drop_last() =~= Seq::empty());
        assert(added(amounts.skip(1)) == 0);
        assert(sum(amounts.drop_last()) == 0);
    } else if amounts.len() > 1 {
        let inner = amounts.skip(1).drop_last();
        lemma_added(amounts.skip(1));
        lemma_added(amounts.drop_last());
        lemma_added(inner);
        assert(amounts.drop_last().skip(1) =~= inner);
        assert(amounts.skip(1).last() == amounts.last());
        assert(amounts.drop_last()[0] == amounts[0]);
    }
}

/// A total is the sum of the amounts, as far as a `u64` holds it.
pub proof fn law_saturating_total(amounts: Vec<u64>, total: u64)
    requires
        call_ensures(saturating_total, (&amounts,), total),
    ensures
        total == cap(added(amounts@)),
{
    lemma_added(amounts@);
}

/// What the baskets of several validators owe a coldkey on a subnet is answered in EVM units, added
/// up as far as a `u64` holds it. More than 64 validators are refused before anything is charged; 20
/// reads are charged for each, and then a validator that occurs twice is refused.
pub proof fn law_get_unclaimed_root_tao_by_subnet<R: Runtime>(
    precompile: StakingPrecompileV2<R>,
    handle: &mut Handle,
    coldkey: H256,
    netuid: u16,
    hotkeys: Vec<H256>,
    owed: spec_fn(AccountId) -> u64,
    evm: spec_fn(u64) -> Option<U256>,
    result: EvmResult<U256>,
)
    requires
        call_ensures(
            StakingPrecompileV2::<R>::get_unclaimed_root_tao_by_subnet,
            (&precompile, handle, coldkey, netuid, hotkeys),
            result,
        ),
        forall|hotkey: AccountId, answer: u64| #[trigger]
            call_ensures(
                R::get_basket_subnet_payout_tao,
                (&precompile.runtime, hotkey, AccountId(coldkey.0), netuid),
                answer,
            ) ==> answer == owed(hotkey),
        forall|amount: u64, answer: Option<U256>| #[trigger]
            call_ensures(R::into_evm_balance, (&precompile.runtime, amount), answer) ==> answer
                == evm(amount),
    ensures
        ({
            let before = *old(handle);
            let after = *final(handle);
            let count = hotkeys@.len() as int;
            let reads = gas(before.db_read_gas as int, 20 * count);
            let amounts = Seq::new(hotkeys@.len(), |i: int| owed(AccountId(hotkeys@[i].0)));
            if count > 64 {
                reverts(result, "hotkeys: Value is too large for length") && after == before
            } else if reads > before.gas_left {
                out_of_gas(result) && after == before
            } else {
                &&& pays(before, after, reads)
                &&& if exists|i: int, j: int|
                    0 <= i < j < count && hotkeys@[i].0 == hotkeys@[j].0 {
                    reverts(result, "duplicate unclaimed root hotkey")
                } else {
                    converted(result, evm(cap(added(amounts)) as u64))
                }
            }
        }),
{
    lemma_repeats(hotkeys@);
    let amounts = Seq::new(hotkeys@.len(), |i: int| owed(AccountId(hotkeys@[i].0)));
    assert forall|read: Seq<u64>| #[trigger]
        payouts_read(
            precompile.runtime,
            hotkeys@,
            AccountId(coldkey.0),
            netuid,
            read,
        ) implies read == amounts by {
        assert(read =~= amounts);
    }
    lemma_added(amounts);
}

} // verus!
