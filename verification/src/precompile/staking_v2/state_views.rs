//! Reading takes, families, owners, successors, swaps and collateral.
use crate::precompile::failure::{answered, EvmResult};
use crate::precompile::handle::{paid, unpaid, Handle};
use crate::precompile::lists::{accounts_to_words, optional_account, optional_word, words};
use crate::precompile::runtime::{CollateralState, Runtime};
use crate::precompile::staking_v2::StakingPrecompileV2;
use crate::primitives::{account_to_h256, zero_word, AccountId, H256};
use vstd::prelude::*;

verus! {

/// A take where there is one, with a flag.
pub open spec fn flagged_take(take: Option<u16>) -> (bool, u16) {
    match take {
        Some(take) => (true, take),
        None => (false, 0),
    }
}

/// A take where there is one, with a flag.
pub fn optional_take(take: Option<u16>) -> (flagged: (bool, u16))
    ensures
        flagged == flagged_take(take),
{
    match take {
        Some(take) => (true, take),
        None => (false, 0),
    }
}

/// Related accounts with their proportions, the accounts as words.
pub open spec fn relation_words(relations: Seq<(u64, AccountId)>) -> Seq<(u64, H256)> {
    relations.map_values(|relation: (u64, AccountId)| (relation.0, H256(relation.1.0)))
}

/// Related accounts with their proportions, the accounts as words.
pub fn relations_to_words(relations: &Vec<(u64, AccountId)>) -> (list: Vec<(u64, H256)>)
    ensures
        list@ == relation_words(relations@),
{
    let mut list: Vec<(u64, H256)> = Vec::new();
    let mut i: usize = 0;
    while i < relations.len()
        invariant
            i <= relations@.len(),
            list@ == relation_words(relations@.take(i as int)),
        decreases relations@.len() - i,
    {
        list.push((relations[i].0, account_to_h256(relations[i].1)));
        assert(list@ =~= relation_words(relations@.take(i + 1)));
        i = i + 1;
    }
    assert(relations@.take(i as int) =~= relations@);
    list
}

/// An announced swap and the dispute of it, each with a flag.
pub open spec fn swap_status(
    announcement: Option<(u64, [u8; 32])>,
    dispute: Option<u64>,
) -> (bool, u64, H256, bool, u64) {
    (
        announcement is Some,
        match announcement {
            Some((block, _)) => block,
            None => 0,
        },
        match announcement {
            Some((_, hash)) => H256(hash),
            None => zero_word(),
        },
        dispute is Some,
        match dispute {
            Some(block) => block,
            None => 0,
        },
    )
}

/// An announced swap and the dispute of it, each with a flag.
pub fn swap_status_of(
    announcement: Option<(u64, [u8; 32])>,
    dispute: Option<u64>,
) -> (status: (bool, u64, H256, bool, u64))
    ensures
        status == swap_status(announcement, dispute),
{
    let (announced, announcement_block, call_hash) = match announcement {
        Some((block, hash)) => (true, block, H256(hash)),
        None => (false, 0, H256::zero()),
    };
    let (disputed, dispute_block) = match dispute {
        Some(block) => (true, block),
        None => (false, 0),
    };
    (announced, announcement_block, call_hash, disputed, dispute_block)
}

/// Collateral where there is some, with a flag.
pub open spec fn collateral(state: Option<CollateralState>) -> (bool, u64, u128, u64, u64) {
    match state {
        Some(state) => (true, state.locked, state.drain_ratio, state.min_locked, state.earned),
        None => (false, 0, 0, 0, 0),
    }
}

/// Collateral where there is some, with a flag.
pub fn collateral_of(
    state: Option<CollateralState>,
) -> (flagged: (bool, u64, u128, u64, u64))
    ensures
        flagged == collateral(state),
{
    match state {
        Some(state) => (true, state.locked, state.drain_ratio, state.min_locked, state.earned),
        None => (false, 0, 0, 0, 0),
    }
}

impl<R: Runtime> StakingPrecompileV2<R> {
    /// The take of a delegate, where the hotkey is one.
    pub fn get_delegate(
        &self,
        handle: &mut Handle,
        hotkey: H256,
    ) -> (result: EvmResult<(bool, u16)>)
        ensures
            ({
                let cost = old(handle).reads_cost(1);
                ||| unpaid(*old(handle), *final(handle), cost, result)
                ||| paid(*old(handle), *final(handle), cost) && exists|take: Option<u16>|
                    {
                        &&& #[trigger] call_ensures(
                            R::delegate_take,
                            (&self.runtime, AccountId(hotkey.0)),
                            take,
                        )
                        &&& answered(result, flagged_take(take))
                    }
            }),
    {
        handle.record_db_reads(1)?;
        let take = self.runtime.delegate_take(hotkey.account());
        Ok(optional_take(take))
    }

    /// The childkey take of a hotkey on a subnet.
    pub fn get_childkey_take(
        &self,
        handle: &mut Handle,
        hotkey: H256,
        netuid: u16,
    ) -> (result: EvmResult<u16>)
        ensures
            ({
                let cost = old(handle).reads_cost(1);
                ||| unpaid(*old(handle), *final(handle), cost, result)
                ||| paid(*old(handle), *final(handle), cost) && exists|take: u16|
                    {
                        &&& #[trigger] call_ensures(
                            R::childkey_take,
                            (&self.runtime, AccountId(hotkey.0), netuid),
                            take,
                        )
                        &&& answered(result, take)
                    }
            }),
    {
        handle.record_db_reads(1)?;
        let take: u16 = self.runtime.childkey_take(hotkey.account(), netuid);
        Ok(take)
    }

    /// The pending children of a parent on a subnet, and the block of their cooldown.
    pub fn get_pending_child_keys(
        &self,
        handle: &mut Handle,
        parent: H256,
        netuid: u16,
    ) -> (result: EvmResult<(Vec<(u64, H256)>, u64)>)
        ensures
            ({
                let cost = old(handle).reads_cost(1);
                ||| unpaid(*old(handle), *final(handle), cost, result)
                ||| paid(*old(handle), *final(handle), cost) && exists|
                    pending: (Vec<(u64, AccountId)>, u64),
                |
                    {
                        &&& #[trigger] call_ensures(
                            R::pending_child_keys,
                            (&self.runtime, netuid, AccountId(parent.0)),
                            pending,
                        )
                        &&& result is Ok
                        &&& result->Ok_0.0@ == relation_words(pending.0@)
                        &&& result->Ok_0.1 == pending.1
                    }
            }),
    {
        handle.record_db_reads(1)?;
        let pending = self.runtime.pending_child_keys(netuid, parent.account());
        Ok((relations_to_words(&pending.0), pending.1))
    }

    /// The children of a parent on a subnet, each with its proportion.
    pub fn get_child_keys(
        &self,
        handle: &mut Handle,
        parent: H256,
        netuid: u16,
    ) -> (result: EvmResult<Vec<(u64, H256)>>)
        ensures
            ({
                let cost = old(handle).reads_cost(1);
                ||| unpaid(*old(handle), *final(handle), cost, result)
                ||| paid(*old(handle), *final(handle), cost) && exists|
                    children: Vec<(u64, AccountId)>,
                |
                    {
                        &&& #[trigger] call_ensures(
                            R::child_keys,
                            (&self.runtime, AccountId(parent.0), netuid),
                            children,
                        )
                        &&& result is Ok
                        &&& result->Ok_0@ == relation_words(children@)
                    }
            }),
    {
        handle.record_db_reads(1)?;
        let children = self.runtime.child_keys(parent.account(), netuid);
        Ok(relations_to_words(&children))
    }

    /// The parents of a child on a subnet, each with its proportion.
    pub fn get_parent_keys(
        &self,
        handle: &mut Handle,
        child: H256,
        netuid: u16,
    ) -> (result: EvmResult<Vec<(u64, H256)>>)
        ensures
            ({
                let cost = old(handle).reads_cost(1);
                ||| unpaid(*old(handle), *final(handle), cost, result)
                ||| paid(*old(handle), *final(handle), cost) && exists|
                    parents: Vec<(u64, AccountId)>,
                |
                    {
                        &&& #[trigger] call_ensures(
                            R::parent_keys,
                            (&self.runtime, AccountId(child.0), netuid),
                            parents,
                        )
                        &&& result is Ok
                        &&& result->Ok_0@ == relation_words(parents@)
                    }
            }),
    {
        handle.record_db_reads(1)?;
        let parents = self.runtime.parent_keys(child.account(), netuid);
        Ok(relations_to_words(&parents))
    }

    /// The cooldown of pending children.
    pub fn get_pending_childkey_cooldown(
        &self,
        handle: &mut Handle,
    ) -> (result: EvmResult<u64>)
        ensures
            ({
                let cost = old(handle).reads_cost(1);
                ||| unpaid(*old(handle), *final(handle), cost, result)
                ||| paid(*old(handle), *final(handle), cost) && exists|cooldown: u64|
                    {
                        &&& #[trigger] call_ensures(
                            R::pending_child_key_cooldown,
                            (&self.runtime,),
                            cooldown,
                        )
                        &&& answered(result, cooldown)
                    }
            }),
    {
        handle.record_db_reads(1)?;
        let cooldown: u64 = self.runtime.pending_child_key_cooldown();
        Ok(cooldown)
    }

    /// The least and the greatest take of a delegate, and of a childkey.
    pub fn get_take_limits(
        &self,
        handle: &mut Handle,
    ) -> (result: EvmResult<(u16, u16, u16, u16)>)
        ensures
            ({
                let cost = old(handle).reads_cost(4);
                ||| unpaid(*old(handle), *final(handle), cost, result)
                ||| paid(*old(handle), *final(handle), cost) && exists|
                    min_delegate: u16,
                    max_delegate: u16,
                    min_childkey: u16,
                    max_childkey: u16,
                |
                    {
                        &&& #[trigger] call_ensures(
                            R::min_delegate_take,
                            (&self.runtime,),
                            min_delegate,
                        )
                        &&& #[trigger] call_ensures(
                            R::max_delegate_take,
                            (&self.runtime,),
                            max_delegate,
                        )
                        &&& #[trigger] call_ensures(
                            R::min_childkey_take,
                            (&self.runtime,),
                            min_childkey,
                        )
                        &&& #[trigger] call_ensures(
                            R::max_childkey_take,
                            (&self.runtime,),
                            max_childkey,
                        )
                        &&& answered(
                            result,
                            (min_delegate, max_delegate, min_childkey, max_childkey),
                        )
                    }
            }),
    {
        handle.record_db_reads(4)?;
        let min_delegate: u16 = self.runtime.min_delegate_take();
        let max_delegate: u16 = self.runtime.max_delegate_take();
        let min_childkey: u16 = self.runtime.min_childkey_take();
        let max_childkey: u16 = self.runtime.max_childkey_take();
        Ok((min_delegate, max_delegate, min_childkey, max_childkey))
    }

    /// The least childkey take on a subnet.
    pub fn get_min_childkey_take_per_subnet(
        &self,
        handle: &mut Handle,
        netuid: u16,
    ) -> (result: EvmResult<u16>)
        ensures
            ({
                let cost = old(handle).reads_cost(1);
                ||| unpaid(*old(handle), *final(handle), cost, result)
                ||| paid(*old(handle), *final(handle), cost) && exists|take: u16|
                    {
                        &&& #[trigger] call_ensures(
                            R::min_childkey_take_per_subnet,
                            (&self.runtime, netuid),
                            take,
                        )
                        &&& answered(result, take)
                    }
            }),
    {
        handle.record_db_reads(1)?;
        let take: u16 = self.runtime.min_childkey_take_per_subnet(netuid);
        Ok(take)
    }

    /// The coldkey that owns a hotkey, where one does.
    pub fn get_hotkey_owner(
        &self,
        handle: &mut Handle,
        hotkey: H256,
    ) -> (result: EvmResult<(bool, H256)>)
        ensures
            ({
                let cost = old(handle).reads_cost(1);
                ||| unpaid(*old(handle), *final(handle), cost, result)
                ||| paid(*old(handle), *final(handle), cost) && exists|owner: Option<AccountId>|
                    {
                        &&& #[trigger] call_ensures(
                            R::owner,
                            (&self.runtime, AccountId(hotkey.0)),
                            owner,
                        )
                        &&& answered(result, optional_word(owner))
                    }
            }),
    {
        handle.record_db_reads(1)?;
        let owner = self.runtime.owner(hotkey.account());
        Ok(optional_account(owner))
    }

    /// The hotkeys that a coldkey owns.
    pub fn get_owned_hotkeys(
        &self,
        handle: &mut Handle,
        coldkey: H256,
    ) -> (result: EvmResult<Vec<H256>>)
        ensures
            ({
                let cost = old(handle).reads_cost(1);
                ||| unpaid(*old(handle), *final(handle), cost, result)
                ||| paid(*old(handle), *final(handle), cost) && exists|hotkeys: Vec<AccountId>|
                    {
                        &&& #[trigger] call_ensures(
                            R::owned_hotkeys,
                            (&self.runtime, AccountId(coldkey.0)),
                            hotkeys,
                        )
                        &&& result is Ok
                        &&& result->Ok_0@ == words(hotkeys@)
                    }
            }),
    {
        handle.record_db_reads(1)?;
        let hotkeys = self.runtime.owned_hotkeys(coldkey.account());
        Ok(accounts_to_words(&hotkeys))
    }

    /// The hotkey that a coldkey chose to stake on by itself on a subnet, where it chose one.
    pub fn get_auto_stake_destination(
        &self,
        handle: &mut Handle,
        coldkey: H256,
        netuid: u16,
    ) -> (result: EvmResult<(bool, H256)>)
        ensures
            ({
                let cost = old(handle).reads_cost(1);
                ||| unpaid(*old(handle), *final(handle), cost, result)
                ||| paid(*old(handle), *final(handle), cost) && exists|hotkey: Option<AccountId>|
                    {
                        &&& #[trigger] call_ensures(
                            R::auto_stake_destination,
                            (&self.runtime, AccountId(coldkey.0), netuid),
                            hotkey,
                        )
                        &&& answered(result, optional_word(hotkey))
                    }
            }),
    {
        handle.record_db_reads(1)?;
        let hotkey = self.runtime.auto_stake_destination(coldkey.account(), netuid);
        Ok(optional_account(hotkey))
    }

    /// The coldkeys that chose to stake on a hotkey by themselves on a subnet.
    pub fn get_auto_stake_destination_coldkeys(
        &self,
        handle: &mut Handle,
        hotkey: H256,
        netuid: u16,
    ) -> (result: EvmResult<Vec<H256>>)
        ensures
            ({
                let cost = old(handle).reads_cost(1);
                ||| unpaid(*old(handle), *final(handle), cost, result)
                ||| paid(*old(handle), *final(handle), cost) && exists|coldkeys: Vec<AccountId>|
                    {
                        &&& #[trigger] call_ensures(
                            R::auto_stake_destination_coldkeys,
                            (&self.runtime, AccountId(hotkey.0), netuid),
                            coldkeys,
                        )
                        &&& result is Ok
                        &&& result->Ok_0@ == words(coldkeys@)
                    }
            }),
    {
        handle.record_db_reads(1)?;
        let coldkeys = self.runtime.auto_stake_destination_coldkeys(hotkey.account(), netuid);
        Ok(accounts_to_words(&coldkeys))
    }

    /// The successor of a hotkey on a subnet, where it has one.
    pub fn get_hotkey_successor(
        &self,
        handle: &mut Handle,
        hotkey: H256,
        netuid: u16,
    ) -> (result: EvmResult<(bool, H256)>)
        ensures
            ({
                let cost = old(handle).reads_cost(1);
                ||| unpaid(*old(handle), *final(handle), cost, result)
                ||| paid(*old(handle), *final(handle), cost) && exists|successor: Option<AccountId>|
                    {
                        &&& #[trigger] call_ensures(
                            R::hotkey_successor,
                            (&self.runtime, netuid, AccountId(hotkey.0)),
                            successor,
                        )
                        &&& answered(result, optional_word(successor))
                    }
            }),
    {
        handle.record_db_reads(1)?;
        let successor = self.runtime.hotkey_successor(netuid, hotkey.account());
        Ok(optional_account(successor))
    }

    /// The root of a hotkey on a subnet, where it has one.
    pub fn get_hotkey_root(
        &self,
        handle: &mut Handle,
        hotkey: H256,
        netuid: u16,
    ) -> (result: EvmResult<(bool, H256)>)
        ensures
            ({
                let cost = old(handle).reads_cost(1);
                ||| unpaid(*old(handle), *final(handle), cost, result)
                ||| paid(*old(handle), *final(handle), cost) && exists|root: Option<AccountId>|
                    {
                        &&& #[trigger] call_ensures(
                            R::hotkey_root,
                            (&self.runtime, netuid, AccountId(hotkey.0)),
                            root,
                        )
                        &&& answered(result, optional_word(root))
                    }
            }),
    {
        handle.record_db_reads(1)?;
        let root = self.runtime.hotkey_root(netuid, hotkey.account());
        Ok(optional_account(root))
    }

    /// The successor of a coldkey, where it has one.
    pub fn get_coldkey_successor(
        &self,
        handle: &mut Handle,
        coldkey: H256,
    ) -> (result: EvmResult<(bool, H256)>)
        ensures
            ({
                let cost = old(handle).reads_cost(1);
                ||| unpaid(*old(handle), *final(handle), cost, result)
                ||| paid(*old(handle), *final(handle), cost) && exists|successor: Option<AccountId>|
                    {
                        &&& #[trigger] call_ensures(
                            R::coldkey_successor,
                            (&self.runtime, AccountId(coldkey.0)),
                            successor,
                        )
                        &&& answered(result, optional_word(successor))
                    }
            }),
    {
        handle.record_db_reads(1)?;
        let successor = self.runtime.coldkey_successor(coldkey.account());
        Ok(optional_account(successor))
    }

    /// The root of a coldkey, where it has one.
    pub fn get_coldkey_root(
        &self,
        handle: &mut Handle,
        coldkey: H256,
    ) -> (result: EvmResult<(bool, H256)>)
        ensures
            ({
                let cost = old(handle).reads_cost(1);
                ||| unpaid(*old(handle), *final(handle), cost, result)
                ||| paid(*old(handle), *final(handle), cost) && exists|root: Option<AccountId>|
                    {
                        &&& #[trigger] call_ensures(
                            R::coldkey_root,
                            (&self.runtime, AccountId(coldkey.0)),
                            root,
                        )
                        &&& answered(result, optional_word(root))
                    }
            }),
    {
        handle.record_db_reads(1)?;
        let root = self.runtime.coldkey_root(coldkey.account());
        Ok(optional_account(root))
    }

    /// The announced swap of a coldkey and the dispute of it, each with a flag.
    pub fn get_coldkey_swap_status(
        &self,
        handle: &mut Handle,
        coldkey: H256,
    ) -> (result: EvmResult<(bool, u64, H256, bool, u64)>)
        ensures
            ({
                let cost = old(handle).reads_cost(2);
                ||| unpaid(*old(handle), *final(handle), cost, result)
                ||| paid(*old(handle), *final(handle), cost) && exists|
                    announcement: Option<(u64, [u8; 32])>,
                    dispute: Option<u64>,
                |
                    {
                        &&& #[trigger] call_ensures(
                            R::coldkey_swap_announcement,
                            (&self.runtime, AccountId(coldkey.0)),
                            announcement,
                        )
                        &&& #[trigger] call_ensures(
                            R::coldkey_swap_dispute,
                            (&self.runtime, AccountId(coldkey.0)),
                            dispute,
                        )
                        &&& answered(result, swap_status(announcement, dispute))
                    }
            }),
    {
        handle.record_db_reads(2)?;
        let announcement = self.runtime.coldkey_swap_announcement(coldkey.account());
        let dispute = self.runtime.coldkey_swap_dispute(coldkey.account());
        Ok(swap_status_of(announcement, dispute))
    }

    /// The delay of an announced coldkey swap, and the one before it is announced anew.
    pub fn get_coldkey_swap_delays(
        &self,
        handle: &mut Handle,
    ) -> (result: EvmResult<(u64, u64)>)
        ensures
            ({
                let cost = old(handle).reads_cost(2);
                ||| unpaid(*old(handle), *final(handle), cost, result)
                ||| paid(*old(handle), *final(handle), cost) && exists|
                    announcement: u64,
                    reannouncement: u64,
                |
                    {
                        &&& #[trigger] call_ensures(
                            R::coldkey_swap_announcement_delay,
                            (&self.runtime,),
                            announcement,
                        )
                        &&& #[trigger] call_ensures(
                            R::coldkey_swap_reannouncement_delay,
                            (&self.runtime,),
                            reannouncement,
                        )
                        &&& answered(result, (announcement, reannouncement))
                    }
            }),
    {
        handle.record_db_reads(2)?;
        let announcement: u64 = self.runtime.coldkey_swap_announcement_delay();
        let reannouncement: u64 = self.runtime.coldkey_swap_reannouncement_delay();
        Ok((announcement, reannouncement))
    }

    /// The block of a coldkey's last hotkey swap on a subnet.
    pub fn get_last_hotkey_swap_on_subnet(
        &self,
        handle: &mut Handle,
        coldkey: H256,
        netuid: u16,
    ) -> (result: EvmResult<u64>)
        ensures
            ({
                let cost = old(handle).reads_cost(1);
                ||| unpaid(*old(handle), *final(handle), cost, result)
                ||| paid(*old(handle), *final(handle), cost) && exists|block: u64|
                    {
                        &&& #[trigger] call_ensures(
                            R::last_hotkey_swap_on_netuid,
                            (&self.runtime, netuid, AccountId(coldkey.0)),
                            block,
                        )
                        &&& answered(result, block)
                    }
            }),
    {
        handle.record_db_reads(1)?;
        let block: u64 = self.runtime.last_hotkey_swap_on_netuid(netuid, coldkey.account());
        Ok(block)
    }

    /// All tokens issued, and all tokens staked, in rao.
    pub fn get_stake_accounting(
        &self,
        handle: &mut Handle,
    ) -> (result: EvmResult<(u64, u64)>)
        ensures
            ({
                let cost = old(handle).reads_cost(2);
                ||| unpaid(*old(handle), *final(handle), cost, result)
                ||| paid(*old(handle), *final(handle), cost) && exists|issuance: u64, stake: u64|
                    {
                        &&& #[trigger] call_ensures(
                            R::total_issuance,
                            (&self.runtime,),
                            issuance,
                        )
                        &&& #[trigger] call_ensures(
                            R::total_stake,
                            (&self.runtime,),
                            stake,
                        )
                        &&& answered(result, (issuance, stake))
                    }
            }),
    {
        handle.record_db_reads(2)?;
        let issuance: u64 = self.runtime.total_issuance();
        let stake: u64 = self.runtime.total_stake();
        Ok((issuance, stake))
    }

    /// The collateral of a miner, with a flag: locked, drain ratio, least and earned.
    pub fn get_miner_collateral(
        &self,
        handle: &mut Handle,
        netuid: u16,
        hotkey: H256,
        coldkey: H256,
    ) -> (result: EvmResult<(bool, u64, u128, u64, u64)>)
        ensures
            ({
                let cost = old(handle).reads_cost(1);
                ||| unpaid(*old(handle), *final(handle), cost, result)
                ||| paid(*old(handle), *final(handle), cost) && exists|
                    state: Option<CollateralState>,
                |
                    {
                        &&& #[trigger] call_ensures(
                            R::miner_collateral,
                            (&self.runtime, netuid, AccountId(hotkey.0), AccountId(coldkey.0)),
                            state,
                        )
                        &&& answered(result, collateral(state))
                    }
            }),
    {
        handle.record_db_reads(1)?;
        let state = self.runtime.miner_collateral(netuid, hotkey.account(), coldkey.account());
        Ok(collateral_of(state))
    }

    /// All collateral of a coldkey on a subnet, and the hotkeys that it is for.
    pub fn get_coldkey_collateral(
        &self,
        handle: &mut Handle,
        netuid: u16,
        coldkey: H256,
    ) -> (result: EvmResult<(u64, Vec<H256>)>)
        ensures
            ({
                let cost = old(handle).reads_cost(2);
                ||| unpaid(*old(handle), *final(handle), cost, result)
                ||| paid(*old(handle), *final(handle), cost) && exists|
                    total: u64,
                    hotkeys: Vec<AccountId>,
                |
                    {
                        &&& #[trigger] call_ensures(
                            R::coldkey_miner_collateral,
                            (&self.runtime, netuid, AccountId(coldkey.0)),
                            total,
                        )
                        &&& #[trigger] call_ensures(
                            R::coldkey_collateral_hotkeys,
                            (&self.runtime, netuid, AccountId(coldkey.0)),
                            hotkeys,
                        )
                        &&& result is Ok
                        &&& result->Ok_0.0 == total
                        &&& result->Ok_0.1@ == words(hotkeys@)
                    }
            }),
    {
        handle.record_db_reads(2)?;
        let total: u64 = self.runtime.coldkey_miner_collateral(netuid, coldkey.account());
        let hotkeys = self.runtime.coldkey_collateral_hotkeys(netuid, coldkey.account());
        Ok((total, accounts_to_words(&hotkeys)))
    }

    /// The lock share of collateral on a subnet, and the bits of the drain ratio.
    pub fn get_collateral_config(
        &self,
        handle: &mut Handle,
        netuid: u16,
    ) -> (result: EvmResult<(u16, u128)>)
        ensures
            ({
                let cost = old(handle).reads_cost(2);
                ||| unpaid(*old(handle), *final(handle), cost, result)
                ||| paid(*old(handle), *final(handle), cost) && exists|share: u16, ratio: u128|
                    {
                        &&& #[trigger] call_ensures(
                            R::collateral_lock_share,
                            (&self.runtime, netuid),
                            share,
                        )
                        &&& #[trigger] call_ensures(
                            R::collateral_drain_ratio,
                            (&self.runtime, netuid),
                            ratio,
                        )
                        &&& answered(result, (share, ratio))
                    }
            }),
    {
        handle.record_db_reads(2)?;
        let share: u16 = self.runtime.collateral_lock_share(netuid);
        let ratio: u128 = self.runtime.collateral_drain_ratio(netuid);
        Ok((share, ratio))
    }
}

} // verus!
