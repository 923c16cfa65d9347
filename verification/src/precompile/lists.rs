//! Lists of hotkeys: checking, filtering, paging and adding up.
use crate::precompile::costs::MAX_STAKING_HOTKEYS_PAGE_SIZE;
use crate::precompile::failure::{
    answered, exit, failed, revert, reverted, EvmResult, ExitError, PrecompileFailure,
};
use crate::precompile::handle::Handle;
use crate::primitives::{account_to_h256, zero_word, AccountId, H256};
use crate::u256::{saturated_u64, U256};
use vstd::prelude::*;

verus! {

/// Whether a hotkey occurs among the first `len` of a list.
fn occurs(hotkeys: &Vec<H256>, len: usize, hotkey: &H256) -> (found: bool)
    requires
        len <= hotkeys@.len(),
    ensures
        found == hotkeys@.take(len as int).contains(*hotkey),
{
    let mut i: usize = 0;
    while i < len
        invariant
            i <= len <= hotkeys@.len(),
            forall|j: int| 0 <= j < i ==> hotkeys@[j] != *hotkey,
        decreases len - i,
    {
        if hotkeys[i].same(hotkey) {
            assert(hotkeys@.take(len as int)[i as int] == *hotkey);
            return true;
        }
        i = i + 1;
    }
    false
}

/// Whether a hotkey occurs twice in a list.
pub fn has_duplicate(hotkeys: &Vec<H256>) -> (found: bool)
    ensures
        found == !hotkeys@.no_duplicates(),
{
    let mut i: usize = 0;
    while i < hotkeys.len()
        invariant
            i <= hotkeys@.len(),
            hotkeys@.take(i as int).no_duplicates(),
        decreases hotkeys@.len() - i,
    {
        if occurs(hotkeys, i, &hotkeys[i]) {
            proof {
                let seen = hotkeys@.take(i as int);
                let j = choose|j: int| 0 <= j < seen.len() && seen[j] == hotkeys@[i as int];
                assert(hotkeys@[j] == hotkeys@[i as int]);
            }
            return true;
        }
        assert(hotkeys@.take(i + 1).no_duplicates()) by {
            let seen = hotkeys@.take(i as int);
            let longer = hotkeys@.take(i + 1);
            assert forall|a: int, b: int|
                0 <= a < longer.len() && 0 <= b < longer.len() && a != b implies longer[a]
                != longer[b] by {
                if a < i && b < i {
                    assert(longer[a] == seen[a] && longer[b] == seen[b]);
                } else if a < i {
                    assert(seen[a] == longer[a]);
                } else {
                    assert(seen[b] == longer[b]);
                }
            }
        }
        i = i + 1;
    }
    assert(hotkeys@.take(i as int) =~= hotkeys@);
    false
}

/// Fails on a list longer than `most`.
pub fn ensure_at_most(hotkeys: &Vec<H256>, most: usize) -> (result: EvmResult<()>)
    ensures
        if hotkeys@.len() > most {
            failed(result, too_long())
        } else {
            answered(result, ())
        },
{
    if hotkeys.len() > most {
        Err(revert("hotkeys: Value is too large for length"))
    } else {
        Ok(())
    }
}

/// The failure of a list of hotkeys that is too long.
pub open spec fn too_long() -> PrecompileFailure {
    reverted("hotkeys: Value is too large for length")
}

/// Account identifiers as words.
pub open spec fn words(accounts: Seq<AccountId>) -> Seq<H256> {
    accounts.map_values(|account: AccountId| H256(account.0))
}

/// Account identifiers as words.
pub fn accounts_to_words(accounts: &Vec<AccountId>) -> (list: Vec<H256>)
    ensures
        list@ == words(accounts@),
{
    let mut list: Vec<H256> = Vec::new();
    let mut i: usize = 0;
    while i < accounts.len()
        invariant
            i <= accounts@.len(),
            list@ == words(accounts@.take(i as int)),
        decreases accounts@.len() - i,
    {
        list.push(account_to_h256(accounts[i]));
        assert(list@ =~= words(accounts@.take(i + 1)));
        i = i + 1;
    }
    assert(accounts@.take(i as int) =~= accounts@);
    list
}

/// An account where there is one, as a flag and a word.
pub open spec fn optional_word(account: Option<AccountId>) -> (bool, H256) {
    match account {
        Some(account) => (true, H256(account.0)),
        None => (false, zero_word()),
    }
}

/// An account where there is one, as a flag and a word.
pub fn optional_account(account: Option<AccountId>) -> (flagged: (bool, H256))
    ensures
        flagged == optional_word(account),
{
    match account {
        Some(account) => (true, account_to_h256(account)),
        None => (false, H256::zero()),
    }
}

/// The hotkeys with their stakes, in order, without those whose stake is zero.
pub open spec fn nonzero(hotkeys: Seq<H256>, stakes: Seq<u64>) -> Seq<(H256, u64)> {
    hotkeys.zip_with(stakes).filter(|position: (H256, u64)| position.1 != 0)
}

/// Positions with their stakes as numbers.
pub open spec fn numbers(positions: Seq<(H256, U256)>) -> Seq<(H256, nat)> {
    positions.map_values(|position: (H256, U256)| (position.0, position.1@))
}

/// Positions with their stakes as numbers.
pub open spec fn widened(positions: Seq<(H256, u64)>) -> Seq<(H256, nat)> {
    positions.map_values(|position: (H256, u64)| (position.0, position.1 as nat))
}

/// The hotkeys with their stakes, without those whose stake is zero.
pub fn nonzero_positions(hotkeys: &Vec<H256>, stakes: &Vec<u64>) -> (positions: Vec<(H256, U256)>)
    requires
        hotkeys@.len() == stakes@.len(),
    ensures
        numbers(positions@) == widened(nonzero(hotkeys@, stakes@)),
{
    let mut positions: Vec<(H256, U256)> = Vec::new();
    let mut i: usize = 0;
    let ghost all = hotkeys@.zip_with(stakes@);
    let ghost kept = |position: (H256, u64)| position.1 != 0;
    proof {
        reveal(Seq::filter);
        assert(numbers(positions@) =~= widened(all.take(0).filter(kept)));
    }
    while i < hotkeys.len()
        invariant
            i <= hotkeys@.len() == stakes@.len(),
            all == hotkeys@.zip_with(stakes@),
            kept == (|position: (H256, u64)| position.1 != 0),
            numbers(positions@) == widened(all.take(i as int).filter(kept)),
        decreases hotkeys@.len() - i,
    {
        let ghost before = positions@;
        if stakes[i] != 0 {
            positions.push((hotkeys[i], U256::from_u64(stakes[i])));
        }
        proof {
            reveal(Seq::filter);
            let shorter = all.take(i as int);
            assert(all.take(i + 1).drop_last() =~= shorter);
            assert(all.take(i + 1).last() == (hotkeys@[i as int], stakes@[i as int]));
            if stakes@[i as int] != 0 {
                assert(numbers(positions@) =~= numbers(before).push(
                    (hotkeys@[i as int], stakes@[i as int] as nat),
                ));
                assert(widened(shorter.filter(kept).push(all[i as int])) =~= widened(
                    shorter.filter(kept),
                ).push((hotkeys@[i as int], stakes@[i as int] as nat)));
            }
        }
        i = i + 1;
    }
    assert(all.take(i as int) =~= all);
    positions
}

/// The positions `[offset, offset + limit)` of a list, as far as the list goes.
pub open spec fn page<T>(list: Seq<T>, offset: nat, limit: nat) -> Seq<T> {
    let start: int = if offset < list.len() {
        offset as int
    } else {
        list.len() as int
    };
    let end: int = if start + limit < list.len() {
        start + limit
    } else {
        list.len() as int
    };
    list.subrange(start, end)
}

/// The failure that a page size makes, where it is none.
pub open spec fn page_refusal(limit: u16) -> Option<PrecompileFailure> {
    if limit == 0 {
        Some(reverted("staking hotkeys page limit must be nonzero"))
    } else if limit > MAX_STAKING_HOTKEYS_PAGE_SIZE {
        Some(reverted("staking hotkeys page limit exceeds 64"))
    } else {
        None
    }
}

/// Fails on a page size of zero, or above the largest.
pub fn ensure_page_limit(limit: u16) -> (result: EvmResult<()>)
    ensures
        match page_refusal(limit) {
            Some(failure) => failed(result, failure),
            None => answered(result, ()),
        },
{
    if limit == 0 {
        return Err(revert("staking hotkeys page limit must be nonzero"));
    }
    if limit > MAX_STAKING_HOTKEYS_PAGE_SIZE {
        return Err(revert("staking hotkeys page limit exceeds 64"));
    }
    Ok(())
}

/// One page of a list of hotkeys, and the length of the list.
pub fn hotkeys_page(hotkeys: &Vec<AccountId>, offset: u64, limit: u16) -> (answer: (Vec<H256>, u64))
    ensures
        answer.0@ == page(words(hotkeys@), offset as nat, limit as nat),
        answer.1 == hotkeys@.len(),
{
    let len: usize = hotkeys.len();
    let total: u64 = len as u64;
    let start: usize = if offset < total {
        offset as usize
    } else {
        len
    };
    let rest: usize = len - start;
    let end: usize = if rest > limit as usize {
        start + limit as usize
    } else {
        len
    };
    let mut list: Vec<H256> = Vec::new();
    let mut i: usize = start;
    while i < end
        invariant
            start <= i <= end <= hotkeys@.len(),
            list@ == words(hotkeys@).subrange(start as int, i as int),
        decreases end - i,
    {
        list.push(account_to_h256(hotkeys[i]));
        assert(list@ =~= words(hotkeys@).subrange(start as int, i + 1));
        i = i + 1;
    }
    (list, total)
}

/// The coldkeys of the rows of a subnet, in order.
pub open spec fn on_subnet(rows: Seq<(AccountId, u16)>, netuid: u16) -> Seq<H256> {
    rows.filter(|row: (AccountId, u16)| row.1 == netuid).map_values(
        |row: (AccountId, u16)| H256(row.0.0),
    )
}

/// How walking rows that are charged for one by one ends: with an answer where the gas pays for all
/// of them, and otherwise out of gas at the first row that it does not pay for.
pub open spec fn walked(
    before: Handle,
    after: Handle,
    rows: Seq<(AccountId, u16)>,
    netuid: u16,
    result: EvmResult<Vec<H256>>,
) -> bool {
    let each = before.reads_cost(1);
    if each * rows.len() <= before.gas_left {
        after == before.spent((each * rows.len()) as u64) && result is Ok && result->Ok_0@
            == on_subnet(rows, netuid)
    } else {
        failed(result, exit(ExitError::OutOfGas)) && exists|paid: int|
            0 <= paid < rows.len() && each * paid <= before.gas_left < #[trigger] (each * (paid
                + 1)) && after == before.spent((each * paid) as u64)
    }
}

/// The coldkeys of the rows of a subnet, each row charged for when it is reached.
pub fn staked_validators(
    handle: &mut Handle,
    rows: &Vec<(AccountId, u16)>,
    netuid: u16,
) -> (result: EvmResult<Vec<H256>>)
    ensures
        walked(*old(handle), *final(handle), rows@, netuid, result),
{
    let ghost before = *handle;
    let ghost each = before.reads_cost(1);
    let mut coldkeys: Vec<H256> = Vec::new();
    let mut i: usize = 0;
    proof {
        reveal(Seq::filter);
        assert(coldkeys@ =~= on_subnet(rows@.take(0), netuid));
        assert(each * 0 == 0);
    }
    while i < rows.len()
        invariant
            i <= rows@.len(),
            before == *old(handle),
            each == before.reads_cost(1),
            0 <= each * i <= before.gas_left,
            *handle == before.spent((each * i) as u64),
            coldkeys@ == on_subnet(rows@.take(i as int), netuid),
        decreases rows@.len() - i,
    {
        assert(each * (i + 1) == each * i + each) by (nonlinear_arith);
        if let Err(failure) = handle.record_db_reads(1) {
            proof {
                assert(each * rows@.len() >= each * (i + 1)) by (nonlinear_arith)
                    requires
                        rows@.len() >= i + 1,
                        each >= 0,
                ;
            }
            return Err(failure);
        }
        if rows[i].1 == netuid {
            coldkeys.push(account_to_h256(rows[i].0));
        }
        proof {
            reveal(Seq::filter);
            let shorter = rows@.take(i as int);
            assert(rows@.take(i + 1).drop_last() =~= shorter);
            assert(coldkeys@ =~= on_subnet(rows@.take(i + 1), netuid));
        }
        i = i + 1;
    }
    assert(rows@.take(i as int) =~= rows@);
    Ok(coldkeys)
}

/// The sum of amounts.
pub open spec fn sum(amounts: Seq<u64>) -> nat
    decreases amounts.len(),
{
    if amounts.len() == 0 {
        0
    } else {
        sum(amounts.drop_last()) + amounts.last() as nat
    }
}

/// The sum of amounts, stopping at the largest `u64`.
pub fn saturating_total(amounts: &Vec<u64>) -> (total: u64)
    ensures
        total == saturated_u64(sum(amounts@)),
{
    let mut total: u64 = 0;
    let mut i: usize = 0;
    while i < amounts.len()
        invariant
            i <= amounts@.len(),
            total == saturated_u64(sum(amounts@.take(i as int))),
        decreases amounts@.len() - i,
    {
        total = total.saturating_add(amounts[i]);
        assert(amounts@.take(i + 1).drop_last() =~= amounts@.take(i as int));
        i = i + 1;
    }
    assert(amounts@.take(i as int) =~= amounts@);
    total
}

} // verus!
