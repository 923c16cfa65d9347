//! What the parts do that the entry points are made of.
use crate::precompile::accounting::{
    coldkey_position_reads, record_total_coldkey_stake_reads,
    record_total_hotkey_stake_reads,
};
use crate::precompile::allowances::AllowancesPrefix;
use crate::precompile::convert::{
    evm_amount, tao_to_evm, try_u16_from_u256, try_u64_from_u256,
};
use crate::precompile::dispatch_laws::{reverts, stopped};
use crate::precompile::failure::{exit_with, revert, EvmResult, ExitError, PrecompileFailure};
use crate::precompile::handle::{saturating_mul, Handle};
use crate::precompile::lists::{
    accounts_to_words, ensure_at_most, ensure_page_limit, has_duplicate, hotkeys_page,
    optional_account,
};
use crate::precompile::runtime::{CollateralState, Runtime};
use crate::precompile::stake_laws::{
    all_positions, cap, converted, lemma_all_positions, lemma_matched, lists_positions, pays_twice,
};
use crate::precompile::staking_v2::state_views::{
    collateral_of, optional_take, relations_to_words, swap_status_of,
};
use crate::precompile::view_laws::{all_zero, gas, out_of_gas, pays};
use crate::primitives::{account_to_h256, same_bytes, AccountId, H160, H256};
use crate::u256::U256;
use vstd::prelude::*;

verus! {

/// A number is the sum of its limbs, each worth 2^64 times the one before.
pub proof fn law_number_of_limbs(number: U256)
    ensures
        number@ == number.limbs@[0] + 0x1_0000_0000_0000_0000int * (number.limbs@[1]
            + 0x1_0000_0000_0000_0000int * (number.limbs@[2] + 0x1_0000_0000_0000_0000int
            * number.limbs@[3])),
{
}

/// Zero is zero, a `u64` keeps its value, and exactly zero is zero.
pub proof fn law_small_numbers(zero: U256, small: u64, wide: U256, number: U256, is_zero: bool)
    requires
        call_ensures(U256::zero, (), zero),
        call_ensures(U256::from_u64, (small,), wide),
        call_ensures(U256::is_zero, (&number,), is_zero),
    ensures
        zero@ == 0,
        wide@ == small,
        is_zero <==> number@ == 0,
{
}

/// A number that a `u16` holds is kept, and any other is refused; nothing is cut off.
pub proof fn law_try_u16_from_u256(value: U256, result: EvmResult<u16>)
    requires
        call_ensures(try_u16_from_u256, (value,), result),
    ensures
        value@ <= 0xffff ==> (result matches Ok(narrow) && narrow == value@),
        value@ > 0xffff ==> stopped(result, "the value is outside of u16 bounds"),
{
}

/// A number that a `u64` holds is kept, and any other is refused; nothing is cut off.
pub proof fn law_try_u64_from_u256(value: U256, result: EvmResult<u64>)
    requires
        call_ensures(try_u64_from_u256, (value,), result),
    ensures
        value@ <= 0xffff_ffff_ffff_ffff ==> (result matches Ok(narrow) && narrow == value@),
        value@ > 0xffff_ffff_ffff_ffff ==> stopped(result, "the value is outside of u64 bounds"),
{
}

/// An amount in EVM units is answered as it is, and a missing one is out of range.
pub proof fn law_evm_amount(amount: Option<U256>, result: EvmResult<U256>)
    requires
        call_ensures(evm_amount, (amount,), result),
    ensures
        converted(result, amount),
{
}

/// A native amount is answered as the chain converts it.
pub proof fn law_tao_to_evm<R: Runtime>(
    runtime: R,
    value: u64,
    amount: Option<U256>,
    result: EvmResult<U256>,
)
    requires
        call_ensures(tao_to_evm::<R>, (&runtime, value), result),
        forall|answer: Option<U256>| #[trigger]
            call_ensures(R::into_evm_balance, (&runtime, value), answer) ==> answer == amount,
    ensures
        converted(result, amount),
{
}

/// A product is kept as far as a `u64` holds it.
pub proof fn law_saturating_mul(a: u64, b: u64, product: u64)
    requires
        call_ensures(saturating_mul, (a, b), product),
    ensures
        product == cap(a * b),
{
}

/// Failures are made of what they are made from.
pub proof fn law_failures(
    status: ExitError,
    message: &'static str,
    exits: PrecompileFailure,
    reverted: PrecompileFailure,
)
    requires
        call_ensures(exit_with, (status,), exits),
        call_ensures(revert, (message,), reverted),
    ensures
        exits == (PrecompileFailure::Error { exit_status: status }),
        reverted == (PrecompileFailure::Revert { output: message }),
{
}

/// Whether a charge went through exactly where the gas left pays for it.
pub open spec fn charges(before: Handle, after: Handle, cost: int, charged: EvmResult<()>) -> bool {
    &&& pays(before, after, cost)
    &&& cost <= before.gas_left ==> charged is Ok
    &&& cost > before.gas_left ==> out_of_gas(charged)
}

/// A cost is charged exactly where the gas left pays for it.
pub proof fn law_record_cost(handle: &mut Handle, cost: u64, charged: EvmResult<()>)
    requires
        call_ensures(Handle::record_cost, (handle, cost), charged),
    ensures
        charges(*old(handle), *final(handle), cost as int, charged),
{
}

/// Reads are charged at the price of a read.
pub proof fn law_record_db_reads(handle: &mut Handle, reads: u64, charged: EvmResult<()>)
    requires
        call_ensures(Handle::record_db_reads, (handle, reads), charged),
    ensures
        charges(
            *old(handle),
            *final(handle),
            gas(old(handle).db_read_gas as int, reads as int),
            charged,
        ),
{
}

/// Writes are charged at the price of a write.
pub proof fn law_record_db_writes(handle: &mut Handle, writes: u64, charged: EvmResult<()>)
    requires
        call_ensures(Handle::record_db_writes, (handle, writes), charged),
    ensures
        charges(
            *old(handle),
            *final(handle),
            gas(old(handle).db_write_gas as int, writes as int),
            charged,
        ),
{
}

/// Charging twice for a total goes through exactly where the gas left pays for both charges.
pub proof fn law_record_total_hotkey_stake_reads<R: Runtime>(
    runtime: R,
    handle: &mut Handle,
    limit: u64,
    charged: EvmResult<()>,
)
    requires
        call_ensures(record_total_hotkey_stake_reads::<R>, (&runtime, handle), charged),
        forall|answer: u64| #[trigger]
            call_ensures(R::subnet_limit, (&runtime,), answer) ==> answer == limit,
    ensures
        ({
            let first = gas(old(handle).db_read_gas as int, 1);
            let second = gas(old(handle).db_read_gas as int, cap(5 * limit));
            &&& pays_twice(*old(handle), *final(handle), first, second, charged)
            &&& first + second <= old(handle).gas_left ==> charged is Ok
        }),
{
}

/// The reads for positions are two for each, and twenty more for each that counts.
pub proof fn law_coldkey_position_reads(netuids: Vec<u16>, selected: Option<u16>, reads: u64)
    requires
        call_ensures(coldkey_position_reads, (&netuids, selected), reads),
    ensures
        selected is None ==> reads == cap(22int * netuids@.len()),
        selected matches Some(netuid) ==> reads == cap(
            2int * netuids@.len() + 20int * netuids@.to_multiset().count(netuid),
        ),
{
    lemma_matched(netuids@, selected);
}

/// Charging for the positions of a coldkey goes through exactly where the gas left pays for its
/// hotkeys and for the positions.
pub proof fn law_record_total_coldkey_stake_reads<R: Runtime>(
    runtime: R,
    handle: &mut Handle,
    coldkey: AccountId,
    selected: Option<u16>,
    hotkeys: Seq<AccountId>,
    older: spec_fn(AccountId) -> Seq<u16>,
    newer: spec_fn(AccountId) -> Seq<u16>,
    charged: EvmResult<()>,
)
    requires
        call_ensures(
            record_total_coldkey_stake_reads::<R>,
            (&runtime, handle, coldkey, selected),
            charged,
        ),
        lists_positions(runtime, coldkey, hotkeys, older, newer),
    ensures
        ({
            let all = all_positions(hotkeys, older, newer);
            let counts: int = match selected {
                None => all.len() as int,
                Some(netuid) => all.to_multiset().count(netuid) as int,
            };
            let first = gas(old(handle).db_read_gas as int, 2);
            let second = gas(
                old(handle).db_read_gas as int,
                cap(2 * all.len() + 20 * counts),
            );
            &&& pays_twice(*old(handle), *final(handle), first, second, charged)
            &&& first + second <= old(handle).gas_left ==> charged is Ok
        }),
{
    lemma_all_positions(runtime, coldkey, hotkeys, older, newer);
    lemma_matched(all_positions(hotkeys, older, newer), selected);
}

/// A list has a duplicate exactly where two of its places hold the same hotkey.
pub proof fn law_has_duplicate(hotkeys: Vec<H256>, found: bool)
    requires
        call_ensures(has_duplicate, (&hotkeys,), found),
    ensures
        found <==> exists|i: int, j: int|
            0 <= i < j < hotkeys@.len() && hotkeys@[i].0 == hotkeys@[j].0,
{
    if exists|i: int, j: int| 0 <= i < j < hotkeys@.len() && hotkeys@[i].0 == hotkeys@[j].0 {
        let (i, j) = choose|i: int, j: int|
            0 <= i < j < hotkeys@.len() && hotkeys@[i].0 == hotkeys@[j].0;
        assert(hotkeys@[i] == hotkeys@[j]);
    }
}

/// A list is refused exactly where it is longer than it may be.
pub proof fn law_ensure_at_most(hotkeys: Vec<H256>, most: usize, result: EvmResult<()>)
    requires
        call_ensures(ensure_at_most, (&hotkeys, most), result),
    ensures
        hotkeys@.len() <= most ==> result is Ok,
        hotkeys@.len() > most ==> reverts(result, "hotkeys: Value is too large for length"),
{
}

/// A page has from one to 64 entries.
pub proof fn law_ensure_page_limit(limit: u16, result: EvmResult<()>)
    requires
        call_ensures(ensure_page_limit, (limit,), result),
    ensures
        limit == 0 ==> reverts(result, "staking hotkeys page limit must be nonzero"),
        limit > 64 ==> reverts(result, "staking hotkeys page limit exceeds 64"),
        0 < limit <= 64 ==> result is Ok,
{
}

/// A page holds the hotkeys from the offset on, as many as asked for and there are, and tells how
/// many there are in all.
pub proof fn law_hotkeys_page(
    hotkeys: Vec<AccountId>,
    offset: u64,
    limit: u16,
    answer: (Vec<H256>, u64),
)
    requires
        call_ensures(hotkeys_page, (&hotkeys, offset, limit), answer),
    ensures
        answer.1 == hotkeys@.len(),
        answer.0@.len() == if offset >= hotkeys@.len() {
            0
        } else if offset + limit > hotkeys@.len() {
            hotkeys@.len() - offset
        } else {
            limit as int
        },
        forall|i: int|
            0 <= i < answer.0@.len() ==> (#[trigger] answer.0@[i]).0 == hotkeys@[offset + i].0,
{
}

/// Accounts become words of the same bytes, in their order.
pub proof fn law_accounts_to_words(accounts: Vec<AccountId>, list: Vec<H256>)
    requires
        call_ensures(accounts_to_words, (&accounts,), list),
    ensures
        list@.len() == accounts@.len(),
        forall|i: int| 0 <= i < list@.len() ==> (#[trigger] list@[i]).0 == accounts@[i].0,
{
}

/// An account that may be missing becomes a flag and a word, which is zero where it is missing.
pub proof fn law_optional_account(account: Option<AccountId>, flagged: (bool, H256))
    requires
        call_ensures(optional_account, (account,), flagged),
    ensures
        flagged.0 <==> account is Some,
        account matches Some(held) ==> flagged.1.0 == held.0,
        account is None ==> all_zero(flagged.1),
{
}

/// A take that may be missing becomes a flag and a take, which is zero where it is missing.
pub proof fn law_optional_take(take: Option<u16>, flagged: (bool, u16))
    requires
        call_ensures(optional_take, (take,), flagged),
    ensures
        flagged.0 <==> take is Some,
        take matches Some(held) ==> flagged.1 == held,
        take is None ==> flagged.1 == 0,
{
}

/// Relations keep their order and proportions, and name the same accounts.
pub proof fn law_relations_to_words(relations: Vec<(u64, AccountId)>, list: Vec<(u64, H256)>)
    requires
        call_ensures(relations_to_words, (&relations,), list),
    ensures
        list@.len() == relations@.len(),
        forall|i: int|
            0 <= i < list@.len() ==> (#[trigger] list@[i]).0 == relations@[i].0 && list@[i].1.0
                == relations@[i].1.0,
{
}

/// The status of a swap tells of the announcement and of the dispute, each by itself.
pub proof fn law_swap_status_of(
    announcement: Option<(u64, [u8; 32])>,
    dispute: Option<u64>,
    status: (bool, u64, H256, bool, u64),
)
    requires
        call_ensures(swap_status_of, (announcement, dispute), status),
    ensures
        status.0 <==> announcement is Some,
        announcement matches Some((block, hash)) ==> status.1 == block && status.2.0 == hash,
        announcement is None ==> status.1 == 0 && all_zero(status.2),
        status.3 <==> dispute is Some,
        dispute matches Some(block) ==> status.4 == block,
        dispute is None ==> status.4 == 0,
{
}

/// Collateral that may be missing becomes a flag and its amounts, which are zero where it is missing.
pub proof fn law_collateral_of(
    state: Option<CollateralState>,
    flagged: (bool, u64, u128, u64, u64),
)
    requires
        call_ensures(collateral_of, (state,), flagged),
    ensures
        flagged.0 <==> state is Some,
        state matches Some(held) ==> flagged.1 == held.locked && flagged.2 == held.drain_ratio
            && flagged.3 == held.min_locked && flagged.4 == held.earned,
        state is None ==> flagged.1 == 0 && flagged.2 == 0 && flagged.3 == 0 && flagged.4 == 0,
{
}

/// Byte arrays, addresses, words and accounts are the same exactly where all their bytes are.
pub proof fn law_same(
    a: (H160, H160),
    b: (H256, H256),
    c: (AccountId, AccountId),
    same: (bool, bool, bool),
)
    requires
        call_ensures(H160::same, (&a.0, &a.1), same.0),
        call_ensures(H256::same, (&b.0, &b.1), same.1),
        call_ensures(AccountId::same, (&c.0, &c.1), same.2),
    ensures
        same.0 <==> forall|i: int| 0 <= i < 20 ==> #[trigger] a.0.0@[i] == a.1.0@[i],
        same.1 <==> forall|i: int| 0 <= i < 32 ==> #[trigger] b.0.0@[i] == b.1.0@[i],
        same.2 <==> forall|i: int| 0 <= i < 32 ==> #[trigger] c.0.0@[i] == c.1.0@[i],
{
    if forall|i: int| 0 <= i < 20 ==> #[trigger] a.0.0@[i] == a.1.0@[i] {
        assert(a.0.0 =~= a.1.0);
    }
    if forall|i: int| 0 <= i < 32 ==> #[trigger] b.0.0@[i] == b.1.0@[i] {
        assert(b.0.0 =~= b.1.0);
    }
    if forall|i: int| 0 <= i < 32 ==> #[trigger] c.0.0@[i] == c.1.0@[i] {
        assert(c.0.0 =~= c.1.0);
    }
}

/// Two byte arrays hold the same bytes exactly where they hold the same at every place.
pub proof fn law_same_bytes<const N: usize>(a: [u8; N], b: [u8; N], same: bool)
    requires
        call_ensures(same_bytes::<N>, (&a, &b), same),
    ensures
        same <==> forall|i: int| 0 <= i < N ==> #[trigger] a@[i] == b@[i],
{
    if forall|i: int| 0 <= i < N ==> #[trigger] a@[i] == b@[i] {
        assert(a =~= b);
    }
}

/// A word and the account of the same bytes stand for each other.
pub proof fn law_words_and_accounts(
    word: H256,
    account: AccountId,
    back: H256,
    zero: H256,
)
    requires
        call_ensures(H256::account, (&word,), account),
        call_ensures(account_to_h256, (account,), back),
        call_ensures(H256::zero, (), zero),
    ensures
        account.0 == word.0,
        back == word,
        all_zero(zero),
{
}

/// The allowances stand under the names that the chain gives them.
pub proof fn law_allowances_prefix(pallet: &'static str, storage: &'static str)
    requires
        call_ensures(AllowancesPrefix::pallet_prefix, (), pallet),
        call_ensures(AllowancesPrefix::storage_prefix, (), storage),
    ensures
        pallet == "EvmPrecompileStaking",
        storage == "Allowances",
{
}

} // verus!
