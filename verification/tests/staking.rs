use evm_staking::precompile::call::{
    Account, AdminCall, Dispatch, ProxyCall, ProxyType, RuntimeCall, SubtensorCall,
};
use evm_staking::precompile::costs::{
    COLDKEY_LOCK_READS, HOTKEY_LOCK_READS, MAX_CONVICTION_HOTKEYS, MAX_STAKE_INFO_HOTKEYS,
    ROOT_UNCLAIMED_READS_PER_HOTKEY, STAKE_INFO_INPUT_GAS_PER_HOTKEY, STAKE_INFO_READS_PER_HOTKEY,
    TOTAL_COLDKEY_MATCHED_POSITION_READS, TOTAL_COLDKEY_POSITION_BASE_READS,
    TOTAL_HOTKEY_STAKE_READS_PER_SUBNET,
};
use evm_staking::precompile::failure::{EvmResult, ExitError, PrecompileFailure};
use evm_staking::precompile::handle::Handle;
use evm_staking::precompile::runtime::{CollateralState, LockState, Runtime};
use evm_staking::precompile::staking_v1::{StakingPrecompile, Transfer, TransferBack};
use evm_staking::precompile::staking_v2::StakingPrecompileV2;
use evm_staking::primitives::{AccountId, H160, H256};
use evm_staking::u256::U256;
use std::collections::{BTreeMap, BTreeSet};

const TEST_NETUID_U16: u16 = 1;
const SECOND_NETUID_U16: u16 = 2;
const INVALID_NETUID_U16: u16 = 12_345;
const RESERVE_TAO: u64 = 200_000_000_000;
const INITIAL_STAKE_RAO: u64 = 20_000_000_000;
const REMOVE_STAKE_RAO: u64 = 10_000_000_000;
const PROXY_STAKE_RAO: u64 = 1_000_000_000;
const COLDKEY_BALANCE: u64 = 100_000_000_000;
const APPROVED_ALLOWANCE_RAO: u64 = 10_000_000_000;
const TRANSFERRED_ALLOWANCE_RAO: u64 = 5_000_000_000;
const ALLOWANCE_DECREASE_RAO: u64 = 2_000_000_000;

const GAS: u64 = 1_000_000_000_000;
const DB_READ_GAS: u64 = 1_000;
const DB_WRITE_GAS: u64 = 5_000;
const SUBNET_LIMIT: u64 = 128;
const EVM_UNITS: u128 = 1_000_000_000;

type Key = [u8; 32];

/// What a basket owes a coldkey: shares owed, all shares, and the alpha held on a subnet.
#[derive(Clone, Copy)]
struct Basket {
    netuid: u16,
    owed: u64,
    total: u64,
    holding: u64,
}

/// A chain in memory, on which alpha costs one rao.
#[derive(Default)]
struct Chain {
    block: u64,
    subnets: BTreeSet<u16>,
    counters: BTreeMap<u16, u64>,
    balances: BTreeMap<Key, u64>,
    stakes: BTreeMap<(Key, Key, u16), u64>,
    old_shares: BTreeSet<(Key, Key, u16)>,
    staking_hotkeys: BTreeMap<Key, Vec<AccountId>>,
    owners: BTreeMap<Key, AccountId>,
    owned: BTreeMap<Key, Vec<AccountId>>,
    locks: BTreeMap<(Key, u16), (AccountId, LockState)>,
    perpetual: BTreeSet<(Key, u16)>,
    accepts_locked: BTreeSet<Key>,
    owner_hotkeys: BTreeMap<u16, AccountId>,
    unlock_rate: u64,
    maturity_rate: u64,
    proxies: BTreeMap<Key, Vec<AccountId>>,
    baskets: BTreeMap<(Key, Key), Basket>,
    delegates: BTreeMap<Key, u16>,
    children: BTreeMap<(Key, u16), Vec<(u64, AccountId)>>,
    auto_stake: BTreeMap<(Key, u16), AccountId>,
    successors: BTreeMap<Key, AccountId>,
    announcements: BTreeMap<Key, (u64, [u8; 32])>,
    disputes: BTreeMap<Key, u64>,
    collateral: BTreeMap<(u16, Key, Key), CollateralState>,
    least_balance_refused: Option<u64>,
}

fn new_chain() -> Chain {
    Chain {
        unlock_rate: 100_000,
        maturity_rate: 50_000,
        ..Chain::default()
    }
}

impl Chain {
    fn account(&self, account: Account) -> AccountId {
        match account {
            Account::Native(account) => account,
            Account::Mapped(address) => mapped_account(address),
        }
    }

    fn stake(&self, hotkey: &AccountId, coldkey: &AccountId, netuid: u16) -> u64 {
        let key = (hotkey.0, coldkey.0, netuid);
        self.stakes.get(&key).copied().unwrap_or(0)
    }

    fn list_hotkey(&mut self, coldkey: &AccountId, hotkey: &AccountId) {
        let list = self.staking_hotkeys.entry(coldkey.0).or_default();
        if !list.contains(hotkey) {
            list.push(*hotkey);
        }
    }

    fn increase_stake(&mut self, hotkey: &AccountId, coldkey: &AccountId, netuid: u16, by: u64) {
        *self
            .stakes
            .entry((hotkey.0, coldkey.0, netuid))
            .or_insert(0) += by;
        self.list_hotkey(coldkey, hotkey);
    }

    fn decrease_stake(
        &mut self,
        hotkey: &AccountId,
        coldkey: &AccountId,
        netuid: u16,
        by: u64,
    ) -> Result<(), &'static str> {
        let stake = self.stake(hotkey, coldkey, netuid);
        let left = stake.checked_sub(by).ok_or("not enough stake")?;
        self.stakes.insert((hotkey.0, coldkey.0, netuid), left);
        Ok(())
    }

    fn add(
        &mut self,
        coldkey: &AccountId,
        hotkey: &AccountId,
        netuid: u16,
        amount: u64,
    ) -> Result<(), &'static str> {
        if !self.subnets.contains(&netuid) {
            return Err("no such subnet");
        }
        if !self.owners.contains_key(&hotkey.0) {
            return Err("no such hotkey");
        }
        let balance = self.balances.get(&coldkey.0).copied().unwrap_or(0);
        let left = balance.checked_sub(amount).ok_or("not enough balance")?;
        self.balances.insert(coldkey.0, left);
        self.increase_stake(hotkey, coldkey, netuid, amount);
        Ok(())
    }

    fn roll(&self, lock: LockState, now: u64, perpetual: bool) -> LockState {
        let elapsed = now.saturating_sub(lock.last_update);
        let locked_mass = if perpetual {
            lock.locked_mass
        } else {
            let passed = elapsed.min(self.unlock_rate) as u128;
            let gone = lock.locked_mass as u128 * passed / self.unlock_rate as u128;
            lock.locked_mass - gone as u64
        };
        let conviction = if locked_mass == 0 {
            0
        } else {
            let matured = locked_mass as u128 * elapsed as u128 / self.maturity_rate as u128;
            lock.conviction + (matured << 64)
        };
        LockState {
            locked_mass,
            conviction,
            last_update: now,
        }
    }

    fn rolled_lock(&self, coldkey: &AccountId, netuid: u16) -> Option<LockState> {
        let (_, lock) = self.locks.get(&(coldkey.0, netuid))?;
        let perpetual = self.perpetual.contains(&(coldkey.0, netuid));
        Some(self.roll(*lock, self.block, perpetual))
    }

    fn is_owner_hotkey(&self, netuid: u16, hotkey: &AccountId) -> bool {
        self.owner_hotkeys.get(&netuid) == Some(hotkey)
    }

    fn bucket(&self, netuid: u16, hotkey: &AccountId, perpetual: bool) -> Option<LockState> {
        self.locks
            .iter()
            .find(|((coldkey, subnet), (locked_on, _))| {
                *subnet == netuid
                    && locked_on == hotkey
                    && self.perpetual.contains(&(*coldkey, *subnet)) == perpetual
            })
            .map(|(_, (_, lock))| *lock)
    }

    fn payout(&self, hotkey: &AccountId, coldkey: &AccountId) -> u64 {
        match self.baskets.get(&(hotkey.0, coldkey.0)) {
            Some(basket) => {
                (basket.holding as u128 * basket.owed as u128 / basket.total as u128) as u64
            }
            None => 0,
        }
    }

    fn claim(&mut self, hotkey: &AccountId, coldkey: &AccountId) {
        if let Some(basket) = self.baskets.get_mut(&(hotkey.0, coldkey.0)) {
            basket.owed = 0;
        }
    }

    fn dispatch(&mut self, dispatch: Dispatch) -> Result<(), &'static str> {
        let signer = mapped_account(dispatch.signer);
        self.dispatch_signed(signer, dispatch.call)
    }

    fn dispatch_signed(&mut self, signer: AccountId, call: RuntimeCall) -> Result<(), &'static str> {
        match call {
            RuntimeCall::Subtensor(call) => self.subtensor(signer, call),
            RuntimeCall::AdminUtils(_) => Err("not root"),
            RuntimeCall::Proxy(ProxyCall::AddProxy {
                delegate,
                proxy_type,
                delay,
            }) => {
                assert_eq!((proxy_type, delay), (ProxyType::Staking, 0));
                self.proxies.entry(signer.0).or_default().push(delegate);
                Ok(())
            }
            RuntimeCall::Proxy(ProxyCall::RemoveProxy { delegate, .. }) => {
                let list = self.proxies.entry(signer.0).or_default();
                list.retain(|proxy| *proxy != delegate);
                Ok(())
            }
        }
    }

    fn proxy(
        &mut self,
        delegate: AccountId,
        real: AccountId,
        call: SubtensorCall,
    ) -> Result<(), &'static str> {
        let list = self.proxies.get(&real.0).ok_or("not a proxy")?;
        if !list.contains(&delegate) {
            return Err("not a proxy");
        }
        self.subtensor(real, call)
    }

    fn subtensor(&mut self, signer: AccountId, call: SubtensorCall) -> Result<(), &'static str> {
        match call {
            SubtensorCall::AddStake {
                hotkey,
                netuid,
                amount_staked,
            } => self.add(&signer, &hotkey, netuid, amount_staked),
            SubtensorCall::AddStakeLimit {
                hotkey,
                netuid,
                amount_staked,
                limit_price,
                ..
            } => {
                assert!(limit_price >= 1);
                self.add(&signer, &hotkey, netuid, amount_staked)
            }
            SubtensorCall::RemoveStake {
                hotkey,
                netuid,
                amount_unstaked,
            }
            | SubtensorCall::RemoveStakeLimit {
                hotkey,
                netuid,
                amount_unstaked,
                ..
            } => self.decrease_stake(&hotkey, &signer, netuid, amount_unstaked),
            SubtensorCall::RemoveStakeFullLimit { hotkey, netuid, .. } => {
                let all = self.stake(&hotkey, &signer, netuid);
                self.decrease_stake(&hotkey, &signer, netuid, all)
            }
            SubtensorCall::UnstakeAll { hotkey } => {
                for netuid in self.subnets.clone() {
                    let all = self.stake(&hotkey, &signer, netuid);
                    self.decrease_stake(&hotkey, &signer, netuid, all)?;
                }
                Ok(())
            }
            SubtensorCall::MoveStake {
                origin_hotkey,
                destination_hotkey,
                origin_netuid,
                destination_netuid,
                alpha_amount,
            }
            | SubtensorCall::MoveStakeLimit {
                origin_hotkey,
                destination_hotkey,
                origin_netuid,
                destination_netuid,
                alpha_amount,
                ..
            } => {
                self.decrease_stake(&origin_hotkey, &signer, origin_netuid, alpha_amount)?;
                self.increase_stake(
                    &destination_hotkey,
                    &signer,
                    destination_netuid,
                    alpha_amount,
                );
                Ok(())
            }
            SubtensorCall::TransferStake {
                destination_coldkey,
                hotkey,
                origin_netuid,
                destination_netuid,
                alpha_amount,
            } => {
                let destination = self.account(destination_coldkey);
                self.decrease_stake(&hotkey, &signer, origin_netuid, alpha_amount)?;
                self.increase_stake(&hotkey, &destination, destination_netuid, alpha_amount);
                Ok(())
            }
            SubtensorCall::BurnAlpha {
                hotkey,
                amount,
                netuid,
            } => {
                if !self.subnets.contains(&netuid) {
                    return Err("no such subnet");
                }
                let burnt = amount.min(self.stake(&hotkey, &signer, netuid));
                self.decrease_stake(&hotkey, &signer, netuid, burnt)
            }
            SubtensorCall::LockStake {
                hotkey,
                netuid,
                amount,
            } => {
                let lock = LockState {
                    locked_mass: amount,
                    conviction: 0,
                    last_update: self.block,
                };
                self.locks.insert((signer.0, netuid), (hotkey, lock));
                Ok(())
            }
            SubtensorCall::MoveLock {
                destination_hotkey,
                netuid,
            } => {
                let lock = self.rolled_lock(&signer, netuid).ok_or("no lock")?;
                self.locks
                    .insert((signer.0, netuid), (destination_hotkey, lock));
                Ok(())
            }
            SubtensorCall::SetPerpetualLock { netuid, enabled } => {
                if enabled {
                    self.perpetual.insert((signer.0, netuid));
                } else {
                    self.perpetual.remove(&(signer.0, netuid));
                }
                Ok(())
            }
            SubtensorCall::SetRejectLockedAlpha { enabled } => {
                if enabled {
                    self.accepts_locked.remove(&signer.0);
                } else {
                    self.accepts_locked.insert(signer.0);
                }
                Ok(())
            }
            SubtensorCall::ClaimRootWithHotkey { hotkey } => {
                self.claim(&hotkey, &signer);
                Ok(())
            }
            SubtensorCall::ClaimRoot { subnets } => {
                assert!(!subnets.is_empty());
                for hotkey in self.staking_hotkeys(signer) {
                    self.claim(&hotkey, &signer);
                }
                Ok(())
            }
            _ => Err("not on this chain"),
        }
    }

    fn transfer(&mut self, from: AccountId, transfer: Transfer) -> Result<(), &'static str> {
        let balance = self.balances.get(&from.0).copied().unwrap_or(0);
        let left = balance
            .checked_sub(transfer.value)
            .ok_or("not enough balance")?;
        self.balances.insert(from.0, left);
        let dest = mapped_account(transfer.dest);
        *self.balances.entry(dest.0).or_insert(0) += transfer.value;
        Ok(())
    }
}

impl Runtime for Chain {
    fn get_registered_subnet_counter(&self, netuid: u16) -> u64 {
        self.counters.get(&netuid).copied().unwrap_or(0)
    }

    fn get_stake_for_hotkey_and_coldkey_on_subnet(
        &self,
        hotkey: AccountId,
        coldkey: AccountId,
        netuid: u16,
    ) -> u64 {
        self.stake(&hotkey, &coldkey, netuid)
    }

    fn get_stake_for_hotkey_on_subnet(&self, hotkey: AccountId, netuid: u16) -> u64 {
        self.stakes
            .iter()
            .filter(|((on, _, subnet), _)| *on == hotkey.0 && *subnet == netuid)
            .map(|(_, stake)| *stake)
            .sum()
    }

    fn get_total_stake_for_coldkey(&self, coldkey: AccountId) -> u64 {
        self.stakes
            .iter()
            .filter(|((_, of, _), _)| *of == coldkey.0)
            .map(|(_, stake)| *stake)
            .sum()
    }

    fn get_total_stake_for_coldkey_on_subnet(&self, coldkey: AccountId, netuid: u16) -> u64 {
        self.stakes
            .iter()
            .filter(|((_, of, subnet), _)| *of == coldkey.0 && *subnet == netuid)
            .map(|(_, stake)| *stake)
            .sum()
    }

    fn get_total_stake_for_hotkey(&self, hotkey: AccountId) -> u64 {
        self.stakes
            .iter()
            .filter(|((on, _, _), _)| *on == hotkey.0)
            .map(|(_, stake)| *stake)
            .sum()
    }

    fn alpha_iter_single_prefix(&self, hotkey: AccountId) -> Vec<(AccountId, u16)> {
        self.stakes
            .keys()
            .filter(|(on, _, _)| *on == hotkey.0)
            .map(|(_, coldkey, netuid)| (AccountId(*coldkey), *netuid))
            .collect()
    }

    fn alpha_netuids(&self, hotkey: AccountId, coldkey: AccountId) -> Vec<u16> {
        self.old_shares
            .iter()
            .filter(|(on, of, _)| *on == hotkey.0 && *of == coldkey.0)
            .map(|(_, _, netuid)| *netuid)
            .collect()
    }

    fn alpha_v2_netuids(&self, hotkey: AccountId, coldkey: AccountId) -> Vec<u16> {
        self.stakes
            .keys()
            .filter(|(on, of, _)| *on == hotkey.0 && *of == coldkey.0)
            .map(|(_, _, netuid)| *netuid)
            .collect()
    }

    fn staking_hotkeys(&self, coldkey: AccountId) -> Vec<AccountId> {
        self.staking_hotkeys
            .get(&coldkey.0)
            .cloned()
            .unwrap_or_default()
    }

    fn subnet_limit(&self) -> u64 {
        SUBNET_LIMIT
    }

    fn get_nominator_min_required_stake(&self) -> u64 {
        10_000_000
    }

    fn default_min_stake(&self) -> u64 {
        2_000_000
    }

    fn decaying_lock(&self, coldkey: AccountId, netuid: u16) -> Option<bool> {
        if self.perpetual.contains(&(coldkey.0, netuid)) {
            Some(false)
        } else {
            None
        }
    }

    fn first_lock(&self, coldkey: AccountId, netuid: u16) -> Option<(AccountId, LockState)> {
        self.locks.get(&(coldkey.0, netuid)).copied()
    }

    fn get_current_block_as_u64(&self) -> u64 {
        self.block
    }

    fn subnet_owner_hotkey(&self, netuid: u16) -> AccountId {
        self.owner_hotkeys
            .get(&netuid)
            .copied()
            .unwrap_or(AccountId([0; 32]))
    }

    fn unlock_rate(&self) -> u64 {
        self.unlock_rate
    }

    fn maturity_rate(&self) -> u64 {
        self.maturity_rate
    }

    fn roll_forward_lock(
        &self,
        lock: LockState,
        now: u64,
        unlock_rate: u64,
        maturity_rate: u64,
        _owner_lock: bool,
        perpetual_lock: bool,
    ) -> LockState {
        assert_eq!(unlock_rate, self.unlock_rate);
        assert_eq!(maturity_rate, self.maturity_rate);
        self.roll(lock, now, perpetual_lock)
    }

    fn lock_is_zero(&self, lock: LockState) -> bool {
        lock.locked_mass == 0 && lock.conviction == 0
    }

    fn hotkey_lock(&self, netuid: u16, hotkey: AccountId) -> Option<LockState> {
        if self.is_owner_hotkey(netuid, &hotkey) {
            None
        } else {
            self.bucket(netuid, &hotkey, true)
        }
    }

    fn decaying_hotkey_lock(&self, netuid: u16, hotkey: AccountId) -> Option<LockState> {
        if self.is_owner_hotkey(netuid, &hotkey) {
            None
        } else {
            self.bucket(netuid, &hotkey, false)
        }
    }

    fn owner_lock(&self, netuid: u16) -> Option<LockState> {
        self.bucket(netuid, self.owner_hotkeys.get(&netuid)?, true)
    }

    fn decaying_owner_lock(&self, netuid: u16) -> Option<LockState> {
        self.bucket(netuid, self.owner_hotkeys.get(&netuid)?, false)
    }

    fn hotkey_conviction(&self, hotkey: AccountId, netuid: u16) -> u128 {
        [true, false]
            .into_iter()
            .filter_map(|perpetual| {
                let lock = self.bucket(netuid, &hotkey, perpetual)?;
                Some(self.roll(lock, self.block, perpetual).conviction)
            })
            .sum()
    }

    fn account_rejects_locked_alpha(&self, coldkey: AccountId) -> bool {
        !self.accepts_locked.contains(&coldkey.0)
    }

    fn get_basket_payout_tao(&self, hotkey: AccountId, coldkey: AccountId) -> u64 {
        self.payout(&hotkey, &coldkey)
    }

    fn get_basket_subnet_payout_tao(
        &self,
        hotkey: AccountId,
        coldkey: AccountId,
        netuid: u16,
    ) -> u64 {
        match self.baskets.get(&(hotkey.0, coldkey.0)) {
            Some(basket) if basket.netuid == netuid => self.payout(&hotkey, &coldkey),
            _ => 0,
        }
    }

    fn delegate_take(&self, hotkey: AccountId) -> Option<u16> {
        self.delegates.get(&hotkey.0).copied()
    }

    fn childkey_take(&self, _hotkey: AccountId, netuid: u16) -> u16 {
        700 + netuid
    }

    fn pending_child_keys(&self, netuid: u16, parent: AccountId) -> (Vec<(u64, AccountId)>, u64) {
        let children = self.child_keys(parent, netuid);
        let cooldown = if children.is_empty() { 0 } else { 77 };
        (children, cooldown)
    }

    fn child_keys(&self, parent: AccountId, netuid: u16) -> Vec<(u64, AccountId)> {
        self.children
            .get(&(parent.0, netuid))
            .cloned()
            .unwrap_or_default()
    }

    fn parent_keys(&self, child: AccountId, netuid: u16) -> Vec<(u64, AccountId)> {
        let mut parents = Vec::new();
        for ((parent, subnet), children) in &self.children {
            for (proportion, of) in children {
                if *subnet == netuid && *of == child {
                    parents.push((*proportion, AccountId(*parent)));
                }
            }
        }
        parents
    }

    fn pending_child_key_cooldown(&self) -> u64 {
        7200
    }

    fn min_delegate_take(&self) -> u16 {
        10
    }

    fn max_delegate_take(&self) -> u16 {
        11_796
    }

    fn min_childkey_take(&self) -> u16 {
        20
    }

    fn max_childkey_take(&self) -> u16 {
        11_797
    }

    fn min_childkey_take_per_subnet(&self, netuid: u16) -> u16 {
        30 + netuid
    }

    fn owner(&self, hotkey: AccountId) -> Option<AccountId> {
        self.owners.get(&hotkey.0).copied()
    }

    fn owned_hotkeys(&self, coldkey: AccountId) -> Vec<AccountId> {
        self.owned.get(&coldkey.0).cloned().unwrap_or_default()
    }

    fn auto_stake_destination(&self, coldkey: AccountId, netuid: u16) -> Option<AccountId> {
        self.auto_stake.get(&(coldkey.0, netuid)).copied()
    }

    fn auto_stake_destination_coldkeys(&self, hotkey: AccountId, netuid: u16) -> Vec<AccountId> {
        self.auto_stake
            .iter()
            .filter(|((_, subnet), on)| *subnet == netuid && **on == hotkey)
            .map(|((coldkey, _), _)| AccountId(*coldkey))
            .collect()
    }

    fn hotkey_successor(&self, netuid: u16, hotkey: AccountId) -> Option<AccountId> {
        if netuid == TEST_NETUID_U16 {
            self.successors.get(&hotkey.0).copied()
        } else {
            None
        }
    }

    fn hotkey_root(&self, netuid: u16, hotkey: AccountId) -> Option<AccountId> {
        if netuid == TEST_NETUID_U16 {
            self.coldkey_root(hotkey)
        } else {
            None
        }
    }

    fn coldkey_successor(&self, coldkey: AccountId) -> Option<AccountId> {
        self.successors.get(&coldkey.0).copied()
    }

    fn coldkey_root(&self, coldkey: AccountId) -> Option<AccountId> {
        self.successors
            .iter()
            .find(|(_, successor)| **successor == coldkey)
            .map(|(root, _)| AccountId(*root))
    }

    fn coldkey_swap_announcement(&self, coldkey: AccountId) -> Option<(u64, [u8; 32])> {
        self.announcements.get(&coldkey.0).copied()
    }

    fn coldkey_swap_dispute(&self, coldkey: AccountId) -> Option<u64> {
        self.disputes.get(&coldkey.0).copied()
    }

    fn coldkey_swap_announcement_delay(&self) -> u64 {
        36_000
    }

    fn coldkey_swap_reannouncement_delay(&self) -> u64 {
        7_200
    }

    fn last_hotkey_swap_on_netuid(&self, netuid: u16, coldkey: AccountId) -> u64 {
        if self.successors.contains_key(&coldkey.0) {
            900 + netuid as u64
        } else {
            0
        }
    }

    fn total_issuance(&self) -> u64 {
        21_000_000
    }

    fn total_stake(&self) -> u64 {
        self.stakes.values().sum()
    }

    fn miner_collateral(
        &self,
        netuid: u16,
        hotkey: AccountId,
        coldkey: AccountId,
    ) -> Option<CollateralState> {
        self.collateral.get(&(netuid, hotkey.0, coldkey.0)).copied()
    }

    fn coldkey_miner_collateral(&self, netuid: u16, coldkey: AccountId) -> u64 {
        self.collateral
            .iter()
            .filter(|((subnet, _, of), _)| *subnet == netuid && *of == coldkey.0)
            .map(|(_, state)| state.locked)
            .sum()
    }

    fn coldkey_collateral_hotkeys(&self, netuid: u16, coldkey: AccountId) -> Vec<AccountId> {
        self.collateral
            .keys()
            .filter(|(subnet, _, of)| *subnet == netuid && *of == coldkey.0)
            .map(|(_, hotkey, _)| AccountId(*hotkey))
            .collect()
    }

    fn collateral_lock_share(&self, netuid: u16) -> u16 {
        40 + netuid
    }

    fn collateral_drain_ratio(&self, netuid: u16) -> u128 {
        (netuid as u128) << 64
    }

    fn into_evm_balance(&self, amount: u64) -> Option<U256> {
        Some(substrate_to_evm(amount))
    }

    fn into_substrate_balance(&self, amount: U256) -> Option<U256> {
        if amount.limbs[2] != 0 || amount.limbs[3] != 0 {
            return None;
        }
        let wide = amount.limbs[0] as u128 | (amount.limbs[1] as u128) << 64;
        Some(from_u128(wide / EVM_UNITS))
    }

    fn try_convert_apparent_value(&self, apparent_value: U256) -> EvmResult<U256> {
        self.into_substrate_balance(apparent_value)
            .ok_or(PrecompileFailure::Error {
                exit_status: ExitError::Other("no native amount"),
            })
    }

    fn holds_balance(&self, amount: u64) -> bool {
        match self.least_balance_refused {
            Some(least) => amount < least,
            None => true,
        }
    }
}

fn from_u128(value: u128) -> U256 {
    U256 {
        limbs: [value as u64, (value >> 64) as u64, 0, 0],
    }
}

fn num(value: u64) -> U256 {
    U256::from_u64(value)
}

fn net(netuid: u16) -> U256 {
    U256::from_u64(netuid as u64)
}

fn max_u256() -> U256 {
    U256 {
        limbs: [u64::MAX; 4],
    }
}

fn substrate_to_evm(amount: u64) -> U256 {
    from_u128(amount as u128 * EVM_UNITS)
}

fn addr_from_index(index: u64) -> H160 {
    let mut bytes = [0u8; 20];
    bytes[12..].copy_from_slice(&index.to_be_bytes());
    H160(bytes)
}

fn mapped_account(address: H160) -> AccountId {
    let mut bytes = [0xe5u8; 32];
    bytes[12..].copy_from_slice(&address.0);
    AccountId(bytes)
}

fn word(account: &AccountId) -> H256 {
    H256(account.0)
}

fn call_from(caller: H160) -> Handle {
    Handle {
        caller,
        apparent_value: U256::zero(),
        gas_left: GAS,
        db_read_gas: DB_READ_GAS,
        db_write_gas: DB_WRITE_GAS,
    }
}

fn cost(handle: &Handle) -> u64 {
    GAS - handle.gas_left
}

fn hotkey() -> AccountId {
    AccountId([0x11; 32])
}

fn delegate() -> AccountId {
    AccountId([0x22; 32])
}

fn error(reason: &'static str) -> PrecompileFailure {
    PrecompileFailure::Error {
        exit_status: ExitError::Other(reason),
    }
}

fn out_of_gas() -> PrecompileFailure {
    PrecompileFailure::Error {
        exit_status: ExitError::OutOfGas,
    }
}

fn reverts(output: &'static str) -> PrecompileFailure {
    PrecompileFailure::Revert { output }
}

fn v2() -> StakingPrecompileV2<Chain> {
    StakingPrecompileV2::new(new_chain())
}

fn v1() -> StakingPrecompile<Chain> {
    StakingPrecompile {
        runtime: new_chain(),
    }
}

fn setup_staking_subnet(chain: &mut Chain) -> u16 {
    setup_staking_subnet_id(chain, TEST_NETUID_U16)
}

fn setup_staking_subnet_id(chain: &mut Chain, netuid: u16) -> u16 {
    chain.subnets.insert(netuid);
    *chain.counters.entry(netuid).or_insert(0) += 1;
    netuid
}

fn fund_account(chain: &mut Chain, account: &AccountId, amount: u64) {
    *chain.balances.entry(account.0).or_insert(0) += amount;
}

fn ensure_hotkey_exists(chain: &mut Chain, hotkey: &AccountId) {
    chain.owners.insert(hotkey.0, *hotkey);
}

fn stake_read_cost(hotkey_count: usize) -> u64 {
    DB_READ_GAS * hotkey_count as u64 * STAKE_INFO_READS_PER_HOTKEY
}

fn stake_info_validation_cost(hotkey_count: usize) -> u64 {
    STAKE_INFO_INPUT_GAS_PER_HOTKEY * hotkey_count as u64
}

fn stake_info_cost(hotkey_count: usize) -> u64 {
    stake_info_validation_cost(hotkey_count) + stake_read_cost(hotkey_count)
}

fn run_v2(
    precompile: &mut StakingPrecompileV2<Chain>,
    result: EvmResult<Dispatch>,
) -> Result<(), &'static str> {
    precompile
        .runtime
        .dispatch(result.expect("the call should be dispatched"))
}

fn add_stake_v2(
    precompile: &mut StakingPrecompileV2<Chain>,
    caller: H160,
    hotkey: &AccountId,
    netuid: u16,
    amount_rao: u64,
) {
    ensure_hotkey_exists(&mut precompile.runtime, hotkey);
    let result = precompile.add_stake(
        &call_from(caller),
        word(hotkey),
        num(amount_rao),
        net(netuid),
    );
    assert_eq!(run_v2(precompile, result), Ok(()));
}

fn precompile_account() -> AccountId {
    mapped_account(addr_from_index(StakingPrecompile::<Chain>::INDEX))
}

fn try_add_stake_v1(
    precompile: &mut StakingPrecompile<Chain>,
    caller: H160,
    hotkey: &AccountId,
    netuid: u16,
    amount_rao: u64,
) -> Result<(), &'static str> {
    let mut handle = call_from(caller);
    handle.apparent_value = substrate_to_evm(amount_rao);
    let transfer = match precompile.transfer_back(&handle) {
        Ok(None) => TransferBack::NotNeeded,
        Ok(Some(transfer)) => {
            assert_eq!(transfer.dest, caller);
            assert_eq!(transfer.value, amount_rao);
            match precompile.runtime.transfer(precompile_account(), transfer) {
                Ok(()) => TransferBack::Done,
                Err(_) => TransferBack::Failed,
            }
        }
        Err(_) => return Err("no transfer back"),
    };
    let dispatch = precompile
        .add_stake(&handle, word(hotkey), net(netuid), transfer)
        .map_err(|_| "not dispatched")?;
    precompile.runtime.dispatch(dispatch)
}

fn add_stake_v1(
    precompile: &mut StakingPrecompile<Chain>,
    caller: H160,
    hotkey: &AccountId,
    netuid: u16,
    amount_rao: u64,
) {
    ensure_hotkey_exists(&mut precompile.runtime, hotkey);
    fund_account(&mut precompile.runtime, &precompile_account(), amount_rao);
    assert_eq!(
        try_add_stake_v1(precompile, caller, hotkey, netuid, amount_rao),
        Ok(())
    );
}

fn setup_root_basket_position(
    chain: &mut Chain,
    coldkey: &AccountId,
    hotkey: &AccountId,
    netuid: u16,
    owed: u64,
    total: u64,
    holding: u64,
) {
    ensure_hotkey_exists(chain, hotkey);
    chain.baskets.insert(
        (hotkey.0, coldkey.0),
        Basket {
            netuid,
            owed,
            total,
            holding,
        },
    );
}

fn assert_proxy_effects(chain: &mut Chain, caller: H160, netuid: u16) {
    let caller_account = mapped_account(caller);
    let hotkey = hotkey();
    let delegate = delegate();
    ensure_hotkey_exists(chain, &hotkey);

    let proxies = chain.proxies[&caller_account.0].clone();
    assert_eq!(proxies.len(), 1);
    assert_eq!(proxies[0], delegate);

    let stake_before = chain.stake(&hotkey, &caller_account, netuid);
    let proxied_call = SubtensorCall::AddStake {
        hotkey,
        netuid,
        amount_staked: PROXY_STAKE_RAO,
    };
    assert!(chain.proxy(delegate, caller_account, proxied_call).is_ok());
    assert!(chain.stake(&hotkey, &caller_account, netuid) > stake_before);
}

fn setup_approval_state() -> (
    StakingPrecompileV2<Chain>,
    u16,
    H160,
    H160,
    AccountId,
    AccountId,
    AccountId,
) {
    let mut precompile = v2();
    let netuid = setup_staking_subnet(&mut precompile.runtime);
    let source = addr_from_index(0x2001);
    let spender = addr_from_index(0x2002);
    let source_account = mapped_account(source);
    let spender_account = mapped_account(spender);
    let hotkey = hotkey();
    fund_account(&mut precompile.runtime, &source_account, COLDKEY_BALANCE);
    add_stake_v2(
        &mut precompile,
        source,
        &hotkey,
        TEST_NETUID_U16,
        INITIAL_STAKE_RAO,
    );
    (
        precompile,
        netuid,
        source,
        spender,
        source_account,
        spender_account,
        hotkey,
    )
}

fn assert_allowance(
    precompile: &StakingPrecompileV2<Chain>,
    source: H160,
    spender: H160,
    caller: H160,
    expected: U256,
) {
    let mut handle = call_from(caller);
    assert_eq!(
        precompile.allowance(&mut handle, source, spender, net(TEST_NETUID_U16)),
        Ok(expected)
    );
    assert_eq!(cost(&handle), 2 * DB_READ_GAS);
}

fn assert_staking_hotkeys_page(
    precompile: &StakingPrecompileV2<Chain>,
    caller: H160,
    coldkey: &AccountId,
    expected: &[AccountId],
) {
    let words: Vec<H256> = expected.iter().map(word).collect();
    assert_eq!(
        precompile.get_staking_hotkeys(&mut call_from(caller), word(coldkey), 0, 64),
        Ok((words, expected.len() as u64))
    );
}

#[test]
fn staking_precompile_v2_move_stake_limit_dispatches_to_distinct_hotkey() {
    let mut precompile = v2();
    let netuid = setup_staking_subnet(&mut precompile.runtime);
    let caller = addr_from_index(0x20a1);
    let coldkey = mapped_account(caller);
    let origin_hotkey = AccountId([0x71; 32]);
    let destination_hotkey = AccountId([0x72; 32]);

    fund_account(&mut precompile.runtime, &coldkey, COLDKEY_BALANCE);
    add_stake_v2(
        &mut precompile,
        caller,
        &origin_hotkey,
        TEST_NETUID_U16,
        INITIAL_STAKE_RAO,
    );
    ensure_hotkey_exists(&mut precompile.runtime, &destination_hotkey);
    let origin_before = precompile.runtime.stake(&origin_hotkey, &coldkey, netuid);
    let amount = origin_before / 2;

    let result = precompile.move_stake_limit(
        &call_from(caller),
        word(&origin_hotkey),
        word(&destination_hotkey),
        TEST_NETUID_U16,
        TEST_NETUID_U16,
        amount,
        u64::MAX,
        false,
    );
    assert_eq!(run_v2(&mut precompile, result), Ok(()));

    assert_eq!(
        precompile.runtime.stake(&origin_hotkey, &coldkey, netuid),
        origin_before - amount
    );
    assert_eq!(
        precompile
            .runtime
            .stake(&destination_hotkey, &coldkey, netuid),
        amount
    );
}

#[test]
fn staking_precompile_v2_returns_non_zero_stake_positions_for_requested_hotkeys() {
    let mut precompile = v2();
    let netuid = setup_staking_subnet(&mut precompile.runtime);
    setup_staking_subnet_id(&mut precompile.runtime, SECOND_NETUID_U16);
    let caller = addr_from_index(0x1101);
    let coldkey = mapped_account(caller);
    let hotkey_a = AccountId([0x31; 32]);
    let hotkey_b = AccountId([0x32; 32]);
    let hotkey_c = AccountId([0x33; 32]);

    fund_account(&mut precompile.runtime, &coldkey, COLDKEY_BALANCE);
    for (hotkey, subnet) in [
        (&hotkey_a, TEST_NETUID_U16),
        (&hotkey_b, SECOND_NETUID_U16),
        (&hotkey_c, TEST_NETUID_U16),
    ] {
        add_stake_v2(&mut precompile, caller, hotkey, subnet, INITIAL_STAKE_RAO);
    }

    let requested_hotkeys = vec![word(&hotkey_a), word(&hotkey_b), word(&hotkey_c)];
    let expected: Vec<(H256, U256)> = [&hotkey_a, &hotkey_b, &hotkey_c]
        .into_iter()
        .filter_map(|hotkey| {
            let stake = precompile.runtime.stake(hotkey, &coldkey, netuid);
            (stake > 0).then_some((word(hotkey), num(stake)))
        })
        .collect();
    assert_eq!(expected.len(), 2);

    let mut handle = call_from(caller);
    assert_eq!(
        precompile.get_stake_info_for_coldkey_and_netuid(
            &mut handle,
            word(&coldkey),
            net(TEST_NETUID_U16),
            requested_hotkeys,
        ),
        Ok(expected)
    );
    assert_eq!(cost(&handle), stake_info_cost(3));
}

#[test]
fn staking_precompile_v2_returns_empty_stake_info_for_unknown_coldkey() {
    let mut precompile = v2();
    setup_staking_subnet(&mut precompile.runtime);
    let coldkey = AccountId([0x41; 32]);
    let hotkeys = vec![H256([0x51; 32]), H256([0x52; 32])];

    let mut handle = call_from(addr_from_index(0x1102));
    assert_eq!(
        precompile.get_stake_info_for_coldkey_and_netuid(
            &mut handle,
            word(&coldkey),
            net(TEST_NETUID_U16),
            hotkeys,
        ),
        Ok(vec![])
    );
    assert_eq!(cost(&handle), stake_info_cost(2));
}

#[test]
fn staking_precompile_v2_rejects_out_of_range_stake_info_netuid() {
    let precompile = v2();
    let coldkey = AccountId([0x42; 32]);
    let invalid_netuid = num(u16::MAX as u64 + 1);

    let result = precompile.get_stake_info_for_coldkey_and_netuid(
        &mut call_from(addr_from_index(0x1103)),
        word(&coldkey),
        invalid_netuid,
        Vec::new(),
    );
    assert_eq!(result, Err(error("the value is outside of u16 bounds")));
}

#[test]
fn staking_precompile_v2_only_reads_caller_supplied_hotkeys() {
    let mut precompile = v2();
    let netuid = setup_staking_subnet(&mut precompile.runtime);
    let caller = addr_from_index(0x1105);
    let coldkey = mapped_account(caller);
    let stored_hotkeys: Vec<AccountId> = (0..=MAX_STAKE_INFO_HOTKEYS)
        .map(|index| {
            let mut account = [0u8; 32];
            account[..8].copy_from_slice(&(index as u64).to_le_bytes());
            AccountId(account)
        })
        .collect();
    let active_hotkey = *stored_hotkeys.last().expect("stored hotkeys is non-empty");

    precompile
        .runtime
        .staking_hotkeys
        .insert(coldkey.0, stored_hotkeys);
    precompile
        .runtime
        .increase_stake(&active_hotkey, &coldkey, netuid, INITIAL_STAKE_RAO);
    let active_stake = precompile.runtime.stake(&active_hotkey, &coldkey, netuid);
    assert!(active_stake > 0);

    let mut handle = call_from(caller);
    assert_eq!(
        precompile.get_stake_info_for_coldkey_and_netuid(
            &mut handle,
            word(&coldkey),
            net(TEST_NETUID_U16),
            vec![word(&active_hotkey)],
        ),
        Ok(vec![(word(&active_hotkey), num(active_stake))])
    );
    assert_eq!(cost(&handle), stake_info_cost(1));
}

#[test]
fn staking_precompile_v2_codec_rejects_more_than_64_requested_hotkeys() {
    let mut precompile = v2();
    setup_staking_subnet(&mut precompile.runtime);
    let caller = addr_from_index(0x1106);
    let coldkey = AccountId([0x43; 32]);
    let hotkeys: Vec<H256> = (0..=MAX_STAKE_INFO_HOTKEYS)
        .map(|index| {
            let mut hotkey = [0u8; 32];
            hotkey[..8].copy_from_slice(&index.to_le_bytes());
            H256(hotkey)
        })
        .collect();

    let mut handle = call_from(caller);
    assert_eq!(
        precompile.get_stake_info_for_coldkey_and_netuid(
            &mut handle,
            word(&coldkey),
            net(TEST_NETUID_U16),
            hotkeys[..MAX_STAKE_INFO_HOTKEYS].to_vec(),
        ),
        Ok(vec![])
    );
    assert_eq!(cost(&handle), stake_info_cost(MAX_STAKE_INFO_HOTKEYS));

    let mut handle = call_from(caller);
    assert_eq!(
        precompile.get_stake_info_for_coldkey_and_netuid(
            &mut handle,
            word(&coldkey),
            net(TEST_NETUID_U16),
            hotkeys,
        ),
        Err(reverts("hotkeys: Value is too large for length"))
    );
    assert_eq!(cost(&handle), 0);
}

#[test]
fn staking_precompile_v2_rejects_duplicate_requested_hotkeys() {
    let mut precompile = v2();
    let netuid = setup_staking_subnet(&mut precompile.runtime);
    let caller = addr_from_index(0x1107);
    let coldkey = mapped_account(caller);
    let hotkey = AccountId([0x54; 32]);
    let requested_hotkey = word(&hotkey);

    fund_account(&mut precompile.runtime, &coldkey, COLDKEY_BALANCE);
    add_stake_v2(
        &mut precompile,
        caller,
        &hotkey,
        TEST_NETUID_U16,
        INITIAL_STAKE_RAO,
    );
    assert!(precompile.runtime.stake(&hotkey, &coldkey, netuid) > 0);

    let mut handle = call_from(caller);
    assert_eq!(
        precompile.get_stake_info_for_coldkey_and_netuid(
            &mut handle,
            word(&coldkey),
            net(TEST_NETUID_U16),
            vec![requested_hotkey, H256([0x55; 32]), requested_hotkey],
        ),
        Err(reverts("duplicate stake info hotkey"))
    );
    assert_eq!(cost(&handle), stake_info_validation_cost(3));
}

#[test]
fn staking_precompile_v2_returns_default_min_stake() {
    let precompile = v2();
    let threshold = precompile.runtime.default_min_stake();
    let mut handle = call_from(addr_from_index(0x1104));
    assert_eq!(
        precompile.get_default_min_stake(&mut handle),
        Ok(num(threshold))
    );
    assert_eq!(cost(&handle), DB_READ_GAS);
}

#[test]
fn staking_precompile_v2_manages_and_reads_stake_lock_lifecycle() {
    let mut precompile = v2();
    let netuid = setup_staking_subnet(&mut precompile.runtime);
    let caller = addr_from_index(0x1120);
    let coldkey = mapped_account(caller);
    let origin_hotkey = AccountId([0x61; 32]);
    let destination_hotkey = AccountId([0x62; 32]);
    let locked = 8_000_000_000_u64;

    fund_account(&mut precompile.runtime, &coldkey, COLDKEY_BALANCE);
    add_stake_v2(
        &mut precompile,
        caller,
        &origin_hotkey,
        TEST_NETUID_U16,
        INITIAL_STAKE_RAO,
    );
    precompile.runtime.owners.insert(origin_hotkey.0, coldkey);
    precompile
        .runtime
        .owners
        .insert(destination_hotkey.0, coldkey);

    let result = precompile.lock_stake(
        &call_from(caller),
        word(&origin_hotkey),
        num(locked),
        net(TEST_NETUID_U16),
    );
    assert_eq!(run_v2(&mut precompile, result), Ok(()));

    let result = precompile.set_perpetual_lock(&call_from(caller), net(TEST_NETUID_U16), true);
    assert_eq!(run_v2(&mut precompile, result), Ok(()));
    assert_eq!(
        precompile.runtime.decaying_lock(coldkey, netuid),
        Some(false)
    );

    precompile.runtime.block = 1_000;
    let expected = precompile
        .runtime
        .rolled_lock(&coldkey, netuid)
        .expect("lock exists");
    assert_eq!(expected.locked_mass, locked);
    assert!(expected.conviction > 0);

    let mut handle = call_from(caller);
    assert_eq!(
        precompile.get_coldkey_lock(&mut handle, word(&coldkey), net(TEST_NETUID_U16)),
        Ok((
            true,
            word(&origin_hotkey),
            num(expected.locked_mass),
            expected.conviction,
            true,
        ))
    );
    assert_eq!(cost(&handle), DB_READ_GAS * COLDKEY_LOCK_READS);

    let expected_hotkey_conviction = precompile.runtime.hotkey_conviction(origin_hotkey, netuid);
    let mut handle = call_from(caller);
    assert_eq!(
        precompile.get_hotkey_lock(&mut handle, word(&origin_hotkey), net(TEST_NETUID_U16)),
        Ok((
            true,
            num(expected.locked_mass),
            expected_hotkey_conviction
        ))
    );
    assert_eq!(cost(&handle), DB_READ_GAS * HOTKEY_LOCK_READS);

    let result = precompile.move_lock(
        &call_from(caller),
        word(&destination_hotkey),
        net(TEST_NETUID_U16),
    );
    assert_eq!(run_v2(&mut precompile, result), Ok(()));

    let (moved_to, moved) = precompile.runtime.locks[&(coldkey.0, netuid)];
    assert_eq!(moved_to, destination_hotkey);
    assert_eq!(moved.locked_mass, expected.locked_mass);
    assert_eq!(moved.conviction, expected.conviction);

    let result = precompile.set_perpetual_lock(&call_from(caller), net(TEST_NETUID_U16), false);
    assert_eq!(run_v2(&mut precompile, result), Ok(()));
    precompile.runtime.block = 2_000;
    let decayed = precompile
        .runtime
        .rolled_lock(&coldkey, netuid)
        .expect("decaying lock remains above the cleanup threshold");
    assert!(decayed.locked_mass < moved.locked_mass);
    assert_eq!(precompile.runtime.decaying_lock(coldkey, netuid), None);
}

#[test]
fn staking_precompile_v2_exposes_lock_rates_conviction_batches_and_recipient_flag() {
    let mut precompile = v2();
    let netuid = setup_staking_subnet(&mut precompile.runtime);
    let caller = addr_from_index(0x1121);
    let coldkey = mapped_account(caller);
    let hotkey = AccountId([0x63; 32]);
    let empty_hotkey = AccountId([0x64; 32]);

    fund_account(&mut precompile.runtime, &coldkey, COLDKEY_BALANCE);
    add_stake_v2(
        &mut precompile,
        caller,
        &hotkey,
        TEST_NETUID_U16,
        INITIAL_STAKE_RAO,
    );
    ensure_hotkey_exists(&mut precompile.runtime, &empty_hotkey);
    let result = precompile.lock_stake(
        &call_from(caller),
        word(&hotkey),
        num(5_000_000_000_u64),
        net(TEST_NETUID_U16),
    );
    assert_eq!(run_v2(&mut precompile, result), Ok(()));
    precompile.runtime.block = 1_000;

    let mut handle = call_from(caller);
    assert_eq!(
        precompile.get_lock_rates(&mut handle),
        Ok((
            precompile.runtime.unlock_rate(),
            precompile.runtime.maturity_rate()
        ))
    );
    assert_eq!(cost(&handle), DB_READ_GAS * 2);

    let expected = vec![precompile.runtime.hotkey_conviction(hotkey, netuid), 0];
    assert!(expected[0] > 0);
    let mut handle = call_from(caller);
    assert_eq!(
        precompile.get_hotkey_convictions(
            &mut handle,
            net(TEST_NETUID_U16),
            vec![word(&hotkey), word(&empty_hotkey)],
        ),
        Ok(expected)
    );
    assert_eq!(
        cost(&handle),
        stake_info_validation_cost(2) + DB_READ_GAS * 2 * HOTKEY_LOCK_READS
    );

    let mut handle = call_from(caller);
    assert_eq!(
        precompile.get_reject_locked_alpha(&mut handle, word(&coldkey)),
        Ok(true)
    );
    assert_eq!(cost(&handle), DB_READ_GAS);
    let result = precompile.set_reject_locked_alpha(&call_from(caller), false);
    assert_eq!(run_v2(&mut precompile, result), Ok(()));
    let mut handle = call_from(caller);
    assert_eq!(
        precompile.get_reject_locked_alpha(&mut handle, word(&coldkey)),
        Ok(false)
    );
    assert_eq!(cost(&handle), DB_READ_GAS);
}

#[test]
fn staking_precompile_v2_reports_empty_lock_and_preconfigured_perpetual_mode() {
    let mut precompile = v2();
    setup_staking_subnet(&mut precompile.runtime);
    let caller = addr_from_index(0x1123);
    let coldkey = mapped_account(caller);
    let hotkey = hotkey();

    let result = precompile.set_perpetual_lock(&call_from(caller), net(TEST_NETUID_U16), true);
    assert_eq!(run_v2(&mut precompile, result), Ok(()));

    let mut handle = call_from(caller);
    assert_eq!(
        precompile.get_coldkey_lock(&mut handle, word(&coldkey), net(TEST_NETUID_U16)),
        Ok((false, H256::zero(), U256::zero(), 0_u128, true))
    );
    assert_eq!(cost(&handle), DB_READ_GAS * COLDKEY_LOCK_READS);

    let mut handle = call_from(caller);
    assert_eq!(
        precompile.get_hotkey_lock(&mut handle, word(&hotkey), net(TEST_NETUID_U16)),
        Ok((false, U256::zero(), 0_u128))
    );
    assert_eq!(cost(&handle), DB_READ_GAS * HOTKEY_LOCK_READS);
}

#[test]
fn staking_precompile_v2_reports_expired_unpersisted_locks_as_nonexistent() {
    let mut precompile = v2();
    let netuid = setup_staking_subnet(&mut precompile.runtime);
    let caller = addr_from_index(0x1124);
    let coldkey = mapped_account(caller);
    let hotkey = AccountId([0x65; 32]);

    fund_account(&mut precompile.runtime, &coldkey, COLDKEY_BALANCE);
    add_stake_v2(
        &mut precompile,
        caller,
        &hotkey,
        TEST_NETUID_U16,
        INITIAL_STAKE_RAO,
    );
    precompile.runtime.owner_hotkeys.insert(netuid, hotkey);
    precompile.runtime.unlock_rate = 1;
    precompile.runtime.maturity_rate = 1;

    let result = precompile.lock_stake(
        &call_from(caller),
        word(&hotkey),
        num(5_000_000_000_u64),
        net(TEST_NETUID_U16),
    );
    assert_eq!(run_v2(&mut precompile, result), Ok(()));
    assert!(precompile.runtime.locks.contains_key(&(coldkey.0, netuid)));
    assert!(precompile.runtime.decaying_owner_lock(netuid).is_some());

    precompile.runtime.block = 100;
    let (_, raw_lock) = precompile.runtime.locks[&(coldkey.0, netuid)];
    let rolled_lock = precompile
        .runtime
        .roll_forward_lock(raw_lock, 100, 1, 1, true, false);
    assert!(precompile.runtime.lock_is_zero(rolled_lock));

    let mut handle = call_from(caller);
    assert_eq!(
        precompile.get_coldkey_lock(&mut handle, word(&coldkey), net(TEST_NETUID_U16)),
        Ok((false, word(&hotkey), U256::zero(), 0_u128, false))
    );
    assert_eq!(cost(&handle), DB_READ_GAS * COLDKEY_LOCK_READS);

    let mut handle = call_from(caller);
    assert_eq!(
        precompile.get_hotkey_lock(&mut handle, word(&hotkey), net(TEST_NETUID_U16)),
        Ok((false, U256::zero(), 0_u128))
    );
    assert_eq!(cost(&handle), DB_READ_GAS * HOTKEY_LOCK_READS);

    let mut handle = call_from(caller);
    assert_eq!(
        precompile.get_hotkey_convictions(&mut handle, net(TEST_NETUID_U16), vec![word(&hotkey)]),
        Ok(vec![0_u128])
    );
    assert_eq!(
        cost(&handle),
        stake_info_validation_cost(1) + DB_READ_GAS * HOTKEY_LOCK_READS
    );

    // View calls roll state in memory only, so this exercises stale rows.
    assert!(precompile.runtime.locks.contains_key(&(coldkey.0, netuid)));
    assert!(precompile.runtime.decaying_owner_lock(netuid).is_some());
}

#[test]
fn staking_precompile_v2_rejects_invalid_lock_inputs() {
    let mut precompile = v2();
    setup_staking_subnet(&mut precompile.runtime);
    let caller = addr_from_index(0x1122);
    let coldkey = mapped_account(caller);
    let hotkey = hotkey();
    fund_account(&mut precompile.runtime, &coldkey, COLDKEY_BALANCE);
    add_stake_v2(
        &mut precompile,
        caller,
        &hotkey,
        TEST_NETUID_U16,
        INITIAL_STAKE_RAO,
    );

    assert_eq!(
        precompile.lock_stake(
            &call_from(caller),
            word(&hotkey),
            from_u128(u64::MAX as u128 + 1),
            net(TEST_NETUID_U16),
        ),
        Err(error("the value is outside of u64 bounds"))
    );

    let requested = word(&hotkey);
    let mut handle = call_from(caller);
    assert_eq!(
        precompile.get_hotkey_convictions(
            &mut handle,
            net(TEST_NETUID_U16),
            vec![requested, requested],
        ),
        Err(reverts("duplicate conviction hotkey"))
    );
    assert_eq!(cost(&handle), stake_info_validation_cost(2));

    let too_many_hotkeys = vec![requested; MAX_CONVICTION_HOTKEYS + 1];
    let mut handle = call_from(caller);
    assert_eq!(
        precompile.get_hotkey_convictions(&mut handle, net(TEST_NETUID_U16), too_many_hotkeys),
        Err(reverts("hotkeys: Value is too large for length"))
    );
    assert_eq!(cost(&handle), 0);
}

#[test]
fn staking_precompile_v1_add_stake_and_reads_match_runtime_state() {
    let mut precompile = v1();
    let netuid = setup_staking_subnet(&mut precompile.runtime);
    let caller = addr_from_index(0x1001);
    let caller_account = mapped_account(caller);
    let hotkey = hotkey();

    fund_account(&mut precompile.runtime, &caller_account, COLDKEY_BALANCE);

    let stake_before = precompile.runtime.stake(&hotkey, &caller_account, netuid);
    add_stake_v1(
        &mut precompile,
        caller,
        &hotkey,
        TEST_NETUID_U16,
        INITIAL_STAKE_RAO,
    );
    let stake_after = precompile.runtime.stake(&hotkey, &caller_account, netuid);
    assert!(stake_after > stake_before);

    let mut handle = call_from(caller);
    assert_eq!(
        precompile.get_stake(
            &mut handle,
            word(&hotkey),
            word(&caller_account),
            net(TEST_NETUID_U16),
        ),
        Ok(substrate_to_evm(stake_after))
    );
    assert_eq!(cost(&handle), stake_read_cost(1));
}

#[test]
fn staking_precompile_v2_add_stake_and_reads_match_runtime_state() {
    let mut precompile = v2();
    let netuid = setup_staking_subnet(&mut precompile.runtime);
    let caller = addr_from_index(0x1002);
    let caller_account = mapped_account(caller);
    let hotkey = hotkey();

    fund_account(&mut precompile.runtime, &caller_account, COLDKEY_BALANCE);

    let stake_before = precompile.runtime.stake(&hotkey, &caller_account, netuid);
    add_stake_v2(
        &mut precompile,
        caller,
        &hotkey,
        TEST_NETUID_U16,
        INITIAL_STAKE_RAO,
    );
    let stake_after = precompile.runtime.stake(&hotkey, &caller_account, netuid);
    let total_coldkey_stake = precompile
        .runtime
        .get_total_stake_for_coldkey_on_subnet(caller_account, netuid);
    assert!(stake_after > stake_before);
    assert!(total_coldkey_stake >= stake_after);

    let mut handle = call_from(caller);
    assert_eq!(
        precompile.get_stake(
            &mut handle,
            word(&hotkey),
            word(&caller_account),
            net(TEST_NETUID_U16),
        ),
        Ok(num(stake_after))
    );
    assert_eq!(cost(&handle), stake_read_cost(1));
    assert_eq!(
        precompile.get_total_coldkey_stake_on_subnet(
            &mut call_from(caller),
            word(&caller_account),
            net(TEST_NETUID_U16),
        ),
        Ok(num(total_coldkey_stake))
    );
}

#[test]
fn staking_precompile_v1_rejects_missing_subnet() {
    let mut precompile = v1();
    let caller = addr_from_index(0x1003);
    let caller_account = mapped_account(caller);
    let hotkey = hotkey();

    fund_account(&mut precompile.runtime, &caller_account, COLDKEY_BALANCE);
    ensure_hotkey_exists(&mut precompile.runtime, &hotkey);
    fund_account(
        &mut precompile.runtime,
        &precompile_account(),
        INITIAL_STAKE_RAO,
    );

    assert!(try_add_stake_v1(
        &mut precompile,
        caller,
        &hotkey,
        INVALID_NETUID_U16,
        INITIAL_STAKE_RAO
    )
    .is_err());
    assert_eq!(
        precompile
            .runtime
            .stake(&hotkey, &caller_account, INVALID_NETUID_U16),
        0
    );
}

#[test]
fn staking_precompile_v2_rejects_missing_subnet() {
    let mut precompile = v2();
    let caller = addr_from_index(0x1004);
    let caller_account = mapped_account(caller);
    let hotkey = hotkey();

    fund_account(&mut precompile.runtime, &caller_account, COLDKEY_BALANCE);
    ensure_hotkey_exists(&mut precompile.runtime, &hotkey);

    let result = precompile.add_stake(
        &call_from(caller),
        word(&hotkey),
        num(INITIAL_STAKE_RAO),
        net(INVALID_NETUID_U16),
    );
    assert!(run_v2(&mut precompile, result).is_err());
    assert_eq!(
        precompile
            .runtime
            .stake(&hotkey, &caller_account, INVALID_NETUID_U16),
        0
    );
}

#[test]
fn staking_precompile_v1_remove_stake_reduces_stake() {
    let mut precompile = v1();
    let netuid = setup_staking_subnet(&mut precompile.runtime);
    let caller = addr_from_index(0x1005);
    let caller_account = mapped_account(caller);
    let hotkey = hotkey();

    fund_account(&mut precompile.runtime, &caller_account, COLDKEY_BALANCE);
    add_stake_v1(
        &mut precompile,
        caller,
        &hotkey,
        TEST_NETUID_U16,
        INITIAL_STAKE_RAO,
    );
    let stake_before = precompile.runtime.stake(&hotkey, &caller_account, netuid);

    let dispatch = precompile
        .remove_stake(
            &call_from(caller),
            word(&hotkey),
            substrate_to_evm(REMOVE_STAKE_RAO),
            net(TEST_NETUID_U16),
        )
        .unwrap();
    assert_eq!(precompile.runtime.dispatch(dispatch), Ok(()));

    let stake_after = precompile.runtime.stake(&hotkey, &caller_account, netuid);
    assert_eq!(stake_after, stake_before - REMOVE_STAKE_RAO);
}

#[test]
fn staking_precompile_v2_remove_stake_reduces_stake() {
    let mut precompile = v2();
    let netuid = setup_staking_subnet(&mut precompile.runtime);
    let caller = addr_from_index(0x1006);
    let caller_account = mapped_account(caller);
    let hotkey = hotkey();

    fund_account(&mut precompile.runtime, &caller_account, COLDKEY_BALANCE);
    add_stake_v2(
        &mut precompile,
        caller,
        &hotkey,
        TEST_NETUID_U16,
        INITIAL_STAKE_RAO,
    );
    let stake_before = precompile.runtime.stake(&hotkey, &caller_account, netuid);

    let result = precompile.remove_stake(
        &call_from(caller),
        word(&hotkey),
        num(REMOVE_STAKE_RAO),
        net(TEST_NETUID_U16),
    );
    assert_eq!(run_v2(&mut precompile, result), Ok(()));

    let stake_after = precompile.runtime.stake(&hotkey, &caller_account, netuid);
    assert_eq!(stake_after, stake_before - REMOVE_STAKE_RAO);
}

fn add_stake_within_limit(
    precompile: &mut StakingPrecompileV2<Chain>,
    caller: H160,
    hotkey: &AccountId,
) {
    let account = mapped_account(caller);
    fund_account(&mut precompile.runtime, &account, COLDKEY_BALANCE);
    ensure_hotkey_exists(&mut precompile.runtime, hotkey);
    let result = precompile.add_stake_limit(
        &call_from(caller),
        word(hotkey),
        num(INITIAL_STAKE_RAO),
        num(1_000_000_000_000_u64),
        true,
        net(TEST_NETUID_U16),
    );
    assert_eq!(run_v2(precompile, result), Ok(()));
}

#[test]
fn staking_precompile_v2_add_stake_limit_increases_stake() {
    let mut precompile = v2();
    let netuid = setup_staking_subnet(&mut precompile.runtime);
    let caller = addr_from_index(0x4001);
    let caller_account = mapped_account(caller);
    let hotkey = hotkey();

    let stake_before = precompile.runtime.stake(&hotkey, &caller_account, netuid);
    add_stake_within_limit(&mut precompile, caller, &hotkey);
    assert!(precompile.runtime.stake(&hotkey, &caller_account, netuid) > stake_before);
}

#[test]
fn staking_precompile_v2_remove_stake_limit_decreases_stake() {
    let mut precompile = v2();
    let netuid = setup_staking_subnet(&mut precompile.runtime);
    let caller = addr_from_index(0x4002);
    let caller_account = mapped_account(caller);
    let hotkey = hotkey();
    add_stake_within_limit(&mut precompile, caller, &hotkey);

    let stake_before = precompile.runtime.stake(&hotkey, &caller_account, netuid);
    let result = precompile.remove_stake_limit(
        &call_from(caller),
        word(&hotkey),
        num(REMOVE_STAKE_RAO),
        num(1_000_000_000_u64),
        true,
        net(TEST_NETUID_U16),
    );
    assert_eq!(run_v2(&mut precompile, result), Ok(()));
    assert!(precompile.runtime.stake(&hotkey, &caller_account, netuid) < stake_before);
}

#[test]
fn staking_precompile_v2_remove_stake_full_limit_clears_stake() {
    let mut precompile = v2();
    let netuid = setup_staking_subnet(&mut precompile.runtime);
    let caller = addr_from_index(0x4003);
    let caller_account = mapped_account(caller);
    let hotkey = hotkey();
    add_stake_within_limit(&mut precompile, caller, &hotkey);

    assert!(precompile.runtime.stake(&hotkey, &caller_account, netuid) > 0);
    let result = precompile.remove_stake_full_limit(
        &call_from(caller),
        word(&hotkey),
        net(TEST_NETUID_U16),
        num(90_000_000_u64),
    );
    assert_eq!(run_v2(&mut precompile, result), Ok(()));
    assert_eq!(
        precompile.runtime.stake(&hotkey, &caller_account, netuid),
        0
    );
}

#[test]
fn staking_precompile_v2_remove_stake_full_clears_stake() {
    let mut precompile = v2();
    let netuid = setup_staking_subnet(&mut precompile.runtime);
    let caller = addr_from_index(0x4004);
    let caller_account = mapped_account(caller);
    let hotkey = hotkey();
    add_stake_within_limit(&mut precompile, caller, &hotkey);

    assert!(precompile.runtime.stake(&hotkey, &caller_account, netuid) > 0);
    let result =
        precompile.remove_stake_full(&call_from(caller), word(&hotkey), net(TEST_NETUID_U16));
    assert_eq!(run_v2(&mut precompile, result), Ok(()));
    assert_eq!(
        precompile.runtime.stake(&hotkey, &caller_account, netuid),
        0
    );
}

#[test]
fn staking_precompile_v2_getters_match_runtime_state() {
    let mut precompile = v2();
    let netuid = setup_staking_subnet(&mut precompile.runtime);
    let caller = addr_from_index(0x4005);
    let caller_account = mapped_account(caller);
    let hotkey = hotkey();

    fund_account(&mut precompile.runtime, &caller_account, COLDKEY_BALANCE);
    add_stake_v2(
        &mut precompile,
        caller,
        &hotkey,
        TEST_NETUID_U16,
        INITIAL_STAKE_RAO,
    );

    let stake = precompile.runtime.stake(&hotkey, &caller_account, netuid);
    assert!(stake > 0);
    assert_eq!(
        precompile.get_stake(
            &mut call_from(caller),
            word(&hotkey),
            word(&caller_account),
            net(TEST_NETUID_U16),
        ),
        Ok(num(stake))
    );
    assert_eq!(
        precompile.get_total_alpha_staked(
            &mut call_from(caller),
            word(&hotkey),
            net(TEST_NETUID_U16)
        ),
        Ok(num(precompile
            .runtime
            .get_stake_for_hotkey_on_subnet(hotkey, netuid)))
    );
    assert_eq!(
        precompile.get_alpha_staked_validators(
            &mut call_from(caller),
            word(&hotkey),
            net(TEST_NETUID_U16)
        ),
        Ok(vec![word(&caller_account)])
    );
    assert_eq!(
        precompile.get_nominator_min_required_stake(&mut call_from(caller)),
        Ok(num(precompile.runtime.get_nominator_min_required_stake()))
    );
}

#[test]
fn staking_precompile_v1_adds_and_removes_proxy() {
    let mut precompile = v1();
    let netuid = setup_staking_subnet(&mut precompile.runtime);
    let caller = addr_from_index(0x1007);
    let caller_account = mapped_account(caller);
    let delegate = delegate();

    fund_account(&mut precompile.runtime, &caller_account, COLDKEY_BALANCE);
    fund_account(&mut precompile.runtime, &delegate, COLDKEY_BALANCE);

    let dispatch = precompile
        .add_proxy(&call_from(caller), word(&delegate))
        .unwrap();
    assert_eq!(precompile.runtime.dispatch(dispatch), Ok(()));
    assert_proxy_effects(&mut precompile.runtime, caller, netuid);

    let dispatch = precompile
        .remove_proxy(&call_from(caller), word(&delegate))
        .unwrap();
    assert_eq!(precompile.runtime.dispatch(dispatch), Ok(()));
    assert!(precompile.runtime.proxies[&caller_account.0].is_empty());
}

#[test]
fn staking_precompile_v2_adds_and_removes_proxy() {
    let mut precompile = v2();
    let netuid = setup_staking_subnet(&mut precompile.runtime);
    let caller = addr_from_index(0x1008);
    let caller_account = mapped_account(caller);
    let delegate = delegate();

    fund_account(&mut precompile.runtime, &caller_account, COLDKEY_BALANCE);
    fund_account(&mut precompile.runtime, &delegate, COLDKEY_BALANCE);

    let result = precompile.add_proxy(&call_from(caller), word(&delegate));
    assert_eq!(run_v2(&mut precompile, result), Ok(()));
    assert_proxy_effects(&mut precompile.runtime, caller, netuid);

    let result = precompile.remove_proxy(&call_from(caller), word(&delegate));
    assert_eq!(run_v2(&mut precompile, result), Ok(()));
    assert!(precompile.runtime.proxies[&caller_account.0].is_empty());
}

#[test]
fn staking_precompile_v2_transfer_stake_from_requires_allowance() {
    let (mut precompile, _, source, spender, _, _, hotkey) = setup_approval_state();
    assert_eq!(
        precompile.transfer_stake_from(
            &mut call_from(spender),
            source,
            spender,
            word(&hotkey),
            net(TEST_NETUID_U16),
            net(TEST_NETUID_U16),
            num(1_u64),
        ),
        Err(reverts("trying to spend more than allowed"))
    );
}

#[test]
fn staking_precompile_v2_transfer_stake_from_consumes_allowance_and_moves_stake() {
    let (mut precompile, netuid, source, spender, source_account, spender_account, hotkey) =
        setup_approval_state();
    assert_eq!(
        precompile.approve(
            &mut call_from(source),
            spender,
            net(TEST_NETUID_U16),
            num(APPROVED_ALLOWANCE_RAO),
        ),
        Ok(())
    );

    let source_stake_before = precompile.runtime.stake(&hotkey, &source_account, netuid);
    let spender_stake_before = precompile.runtime.stake(&hotkey, &spender_account, netuid);

    let mut handle = call_from(spender);
    let result = precompile.transfer_stake_from(
        &mut handle,
        source,
        spender,
        word(&hotkey),
        net(TEST_NETUID_U16),
        net(TEST_NETUID_U16),
        num(TRANSFERRED_ALLOWANCE_RAO),
    );
    assert_eq!(cost(&handle), 2 * DB_READ_GAS + DB_WRITE_GAS);
    assert_eq!(run_v2(&mut precompile, result), Ok(()));

    assert_allowance(
        &precompile,
        source,
        spender,
        source,
        num(APPROVED_ALLOWANCE_RAO - TRANSFERRED_ALLOWANCE_RAO),
    );
    assert_eq!(
        precompile.runtime.stake(&hotkey, &source_account, netuid),
        source_stake_before - TRANSFERRED_ALLOWANCE_RAO,
    );
    assert_eq!(
        precompile.runtime.stake(&hotkey, &spender_account, netuid),
        spender_stake_before + TRANSFERRED_ALLOWANCE_RAO,
    );
}

#[test]
fn staking_precompile_v2_transfer_stake_from_rejects_amount_above_allowance() {
    let (mut precompile, _, source, spender, _, _, hotkey) = setup_approval_state();
    assert_eq!(
        precompile.approve(
            &mut call_from(source),
            spender,
            net(TEST_NETUID_U16),
            num(TRANSFERRED_ALLOWANCE_RAO),
        ),
        Ok(())
    );
    assert_eq!(
        precompile.transfer_stake_from(
            &mut call_from(spender),
            source,
            spender,
            word(&hotkey),
            net(TEST_NETUID_U16),
            net(TEST_NETUID_U16),
            num(TRANSFERRED_ALLOWANCE_RAO + 1),
        ),
        Err(reverts("trying to spend more than allowed"))
    );
}

#[test]
fn staking_precompile_v2_approval_functions_update_allowance() {
    let (mut precompile, _, source, spender, _, _, _) = setup_approval_state();
    assert_allowance(&precompile, source, spender, source, U256::zero());

    let mut handle = call_from(source);
    assert_eq!(
        precompile.approve(
            &mut handle,
            spender,
            net(TEST_NETUID_U16),
            num(APPROVED_ALLOWANCE_RAO),
        ),
        Ok(())
    );
    assert_eq!(cost(&handle), DB_READ_GAS + DB_WRITE_GAS);
    assert_allowance(
        &precompile,
        source,
        spender,
        source,
        num(APPROVED_ALLOWANCE_RAO),
    );

    assert_eq!(
        precompile.increase_allowance(
            &mut call_from(source),
            spender,
            net(TEST_NETUID_U16),
            num(APPROVED_ALLOWANCE_RAO),
        ),
        Ok(())
    );
    assert_allowance(
        &precompile,
        source,
        spender,
        source,
        num(APPROVED_ALLOWANCE_RAO * 2),
    );

    assert_eq!(
        precompile.decrease_allowance(
            &mut call_from(source),
            spender,
            net(TEST_NETUID_U16),
            num(ALLOWANCE_DECREASE_RAO),
        ),
        Ok(())
    );
    assert_allowance(
        &precompile,
        source,
        spender,
        source,
        num(APPROVED_ALLOWANCE_RAO * 2 - ALLOWANCE_DECREASE_RAO),
    );

    assert_eq!(
        precompile.approve(
            &mut call_from(source),
            spender,
            net(TEST_NETUID_U16),
            U256::zero(),
        ),
        Ok(())
    );
    assert_allowance(&precompile, source, spender, source, U256::zero());
}

#[test]
fn staking_precompile_v2_burn_alpha_reduces_stake() {
    let mut precompile = v2();
    let netuid = setup_staking_subnet(&mut precompile.runtime);
    let caller = addr_from_index(0x3001);
    let caller_account = mapped_account(caller);
    let hotkey = hotkey();
    let burn_amount = 20_000_000_000_u64;

    fund_account(&mut precompile.runtime, &caller_account, COLDKEY_BALANCE);
    add_stake_v2(
        &mut precompile,
        caller,
        &hotkey,
        TEST_NETUID_U16,
        50_000_000_000,
    );
    let stake_before = precompile.runtime.stake(&hotkey, &caller_account, netuid);
    assert!(stake_before > 0);

    let result = precompile.burn_alpha(
        &call_from(caller),
        word(&hotkey),
        num(burn_amount),
        net(TEST_NETUID_U16),
    );
    assert_eq!(run_v2(&mut precompile, result), Ok(()));

    let stake_after = precompile.runtime.stake(&hotkey, &caller_account, netuid);
    assert_eq!(stake_after, stake_before - burn_amount);
}

#[test]
fn staking_precompile_v2_burn_alpha_caps_to_available_stake() {
    let mut precompile = v2();
    let netuid = setup_staking_subnet(&mut precompile.runtime);
    let caller = addr_from_index(0x3002);
    let caller_account = mapped_account(caller);
    let hotkey = hotkey();

    fund_account(&mut precompile.runtime, &caller_account, COLDKEY_BALANCE);
    add_stake_v2(
        &mut precompile,
        caller,
        &hotkey,
        TEST_NETUID_U16,
        INITIAL_STAKE_RAO,
    );
    let stake_before = precompile.runtime.stake(&hotkey, &caller_account, netuid);
    assert!(stake_before > 0);

    let result = precompile.burn_alpha(
        &call_from(caller),
        word(&hotkey),
        num(stake_before + 10_000_000_000_u64),
        net(TEST_NETUID_U16),
    );
    assert_eq!(run_v2(&mut precompile, result), Ok(()));

    let stake_after = precompile.runtime.stake(&hotkey, &caller_account, netuid);
    assert_eq!(stake_after, 0);
}

#[test]
fn staking_precompile_v2_burn_alpha_rejects_missing_subnet() {
    let mut precompile = v2();
    let caller = addr_from_index(0x3003);
    let caller_account = mapped_account(caller);
    let hotkey = hotkey();

    fund_account(&mut precompile.runtime, &caller_account, COLDKEY_BALANCE);
    ensure_hotkey_exists(&mut precompile.runtime, &hotkey);

    let result = precompile.burn_alpha(
        &call_from(caller),
        word(&hotkey),
        num(10_000_000_000_u64),
        net(INVALID_NETUID_U16),
    );
    assert!(run_v2(&mut precompile, result).is_err());
}

#[test]
fn staking_precompile_v2_burn_zero_alpha_is_noop() {
    let mut precompile = v2();
    let netuid = setup_staking_subnet(&mut precompile.runtime);
    let caller = addr_from_index(0x3004);
    let caller_account = mapped_account(caller);
    let hotkey = hotkey();

    fund_account(&mut precompile.runtime, &caller_account, COLDKEY_BALANCE);
    add_stake_v2(
        &mut precompile,
        caller,
        &hotkey,
        TEST_NETUID_U16,
        10_000_000_000,
    );
    let stake_before = precompile.runtime.stake(&hotkey, &caller_account, netuid);

    let result = precompile.burn_alpha(
        &call_from(caller),
        word(&hotkey),
        U256::zero(),
        net(TEST_NETUID_U16),
    );
    assert_eq!(run_v2(&mut precompile, result), Ok(()));

    let stake_after = precompile.runtime.stake(&hotkey, &caller_account, netuid);
    assert_eq!(stake_after, stake_before);
}

#[test]
fn aggregate_stake_views_charge_their_scans() {
    let mut newer = v2();
    let mut older = v1();
    setup_staking_subnet(&mut newer.runtime);
    setup_staking_subnet(&mut older.runtime);
    let caller = addr_from_index(0x3005);
    let empty_account = AccountId([0x91; 32]);
    let account_arg = word(&empty_account);
    let hotkey_reads = 1 + SUBNET_LIMIT * TOTAL_HOTKEY_STAKE_READS_PER_SUBNET;

    let mut handle = call_from(caller);
    assert_eq!(
        newer.get_total_hotkey_stake(&mut handle, account_arg),
        Ok(U256::zero())
    );
    assert_eq!(cost(&handle), DB_READ_GAS * hotkey_reads);
    let mut handle = call_from(caller);
    assert_eq!(
        older.get_total_hotkey_stake(&mut handle, account_arg),
        Ok(U256::zero())
    );
    assert_eq!(cost(&handle), DB_READ_GAS * hotkey_reads);

    let mut handle = call_from(caller);
    assert_eq!(
        newer.get_total_coldkey_stake(&mut handle, account_arg),
        Ok(U256::zero())
    );
    assert_eq!(cost(&handle), DB_READ_GAS * 2);
    let mut handle = call_from(caller);
    assert_eq!(
        older.get_total_coldkey_stake(&mut handle, account_arg),
        Ok(U256::zero())
    );
    assert_eq!(cost(&handle), DB_READ_GAS * 2);

    let mut handle = call_from(caller);
    assert_eq!(
        newer.get_total_coldkey_stake_on_subnet(&mut handle, account_arg, net(TEST_NETUID_U16)),
        Ok(U256::zero())
    );
    assert_eq!(cost(&handle), DB_READ_GAS * 2);
}

#[test]
fn coldkey_aggregate_views_charge_each_stake_position() {
    let mut precompile = v2();
    let netuid = setup_staking_subnet(&mut precompile.runtime);
    let caller = addr_from_index(0x3007);
    let coldkey = AccountId([0x92; 32]);
    let hotkey = AccountId([0x93; 32]);
    let coldkey_word = word(&coldkey);
    precompile
        .runtime
        .increase_stake(&hotkey, &coldkey, netuid, 1_000_u64);

    let total = precompile.runtime.get_total_stake_for_coldkey(coldkey);
    let subnet_total = precompile
        .runtime
        .get_total_stake_for_coldkey_on_subnet(coldkey, netuid);
    let reads = 2 + TOTAL_COLDKEY_POSITION_BASE_READS + TOTAL_COLDKEY_MATCHED_POSITION_READS;

    let mut handle = call_from(caller);
    assert_eq!(
        precompile.get_total_coldkey_stake(&mut handle, coldkey_word),
        Ok(num(total))
    );
    assert_eq!(cost(&handle), DB_READ_GAS * reads);

    let mut handle = call_from(caller);
    assert_eq!(
        precompile.get_total_coldkey_stake_on_subnet(
            &mut handle,
            coldkey_word,
            net(TEST_NETUID_U16)
        ),
        Ok(num(subnet_total))
    );
    assert_eq!(cost(&handle), DB_READ_GAS * reads);
}

#[test]
fn staking_hotkeys_view_reads_independent_offset_pages() {
    let mut precompile = v2();
    let caller = addr_from_index(0x3007);
    let coldkey = AccountId([0x72; 32]);
    let first = AccountId([0x10; 32]);
    let second = AccountId([0x20; 32]);
    let third = AccountId([0x30; 32]);
    precompile
        .runtime
        .staking_hotkeys
        .insert(coldkey.0, vec![first, second, third]);

    for (offset, expected) in [
        (0_u64, vec![word(&first), word(&second)]),
        (2_u64, vec![word(&third)]),
        (u64::MAX, vec![]),
    ] {
        let mut handle = call_from(caller);
        assert_eq!(
            precompile.get_staking_hotkeys(&mut handle, word(&coldkey), offset, 2),
            Ok((expected, 3_u64))
        );
        assert_eq!(cost(&handle), DB_READ_GAS);
    }
}

#[test]
fn staking_hotkeys_view_handles_empty_state_and_rejects_invalid_pages() {
    let precompile = v2();
    let caller = addr_from_index(0x3008);
    let coldkey = H256([0x73; 32]);

    let mut handle = call_from(caller);
    assert_eq!(
        precompile.get_staking_hotkeys(&mut handle, coldkey, 0, 1),
        Ok((vec![], 0_u64))
    );
    assert_eq!(cost(&handle), DB_READ_GAS);

    for (limit, message) in [
        (0_u16, "staking hotkeys page limit must be nonzero"),
        (65_u16, "staking hotkeys page limit exceeds 64"),
    ] {
        let mut handle = call_from(caller);
        assert_eq!(
            precompile.get_staking_hotkeys(&mut handle, coldkey, 0, limit),
            Err(reverts(message))
        );
        assert_eq!(cost(&handle), 0);
    }
}

#[test]
fn staking_hotkeys_view_accepts_the_maximum_page_size() {
    let mut precompile = v2();
    let caller = addr_from_index(0x3009);
    let coldkey = AccountId([0x74; 32]);
    let (stored, expected): (Vec<AccountId>, Vec<H256>) = (0_u8..64)
        .map(|suffix| {
            let mut bytes = [0_u8; 32];
            bytes[31] = suffix;
            (AccountId(bytes), H256(bytes))
        })
        .unzip();
    precompile.runtime.staking_hotkeys.insert(coldkey.0, stored);

    let mut handle = call_from(caller);
    assert_eq!(
        precompile.get_staking_hotkeys(&mut handle, word(&coldkey), 0, 64),
        Ok((expected, 64_u64))
    );
    assert_eq!(cost(&handle), DB_READ_GAS);
}

#[test]
fn staking_hotkeys_view_keeps_hotkeys_drained_by_remove_stake_full() {
    let mut precompile = v2();
    let netuid = setup_staking_subnet(&mut precompile.runtime);
    let caller = addr_from_index(0x300a);
    let coldkey = mapped_account(caller);
    let drained = AccountId([0xa1; 32]);
    let funded = AccountId([0xa2; 32]);

    fund_account(&mut precompile.runtime, &coldkey, COLDKEY_BALANCE);
    for hotkey in [&drained, &funded] {
        add_stake_v2(
            &mut precompile,
            caller,
            hotkey,
            TEST_NETUID_U16,
            INITIAL_STAKE_RAO,
        );
    }
    assert!(precompile.runtime.stake(&drained, &coldkey, netuid) > 0);
    assert_staking_hotkeys_page(&precompile, caller, &coldkey, &[drained, funded]);

    let result =
        precompile.remove_stake_full(&call_from(caller), word(&drained), net(TEST_NETUID_U16));
    assert_eq!(run_v2(&mut precompile, result), Ok(()));

    assert_eq!(precompile.runtime.stake(&drained, &coldkey, netuid), 0);
    assert_staking_hotkeys_page(&precompile, caller, &coldkey, &[drained, funded]);
}

#[test]
fn staking_hotkeys_view_keeps_hotkeys_drained_by_unstake_all() {
    let mut precompile = v2();
    let netuid = setup_staking_subnet(&mut precompile.runtime);
    let second_netuid = setup_staking_subnet_id(&mut precompile.runtime, SECOND_NETUID_U16);
    let caller = addr_from_index(0x300b);
    let coldkey = mapped_account(caller);
    let drained = AccountId([0xb1; 32]);

    fund_account(&mut precompile.runtime, &coldkey, COLDKEY_BALANCE);
    for subnet in [TEST_NETUID_U16, SECOND_NETUID_U16] {
        add_stake_v2(&mut precompile, caller, &drained, subnet, INITIAL_STAKE_RAO);
    }
    assert!(precompile.runtime.stake(&drained, &coldkey, netuid) > 0);
    assert!(precompile.runtime.stake(&drained, &coldkey, second_netuid) > 0);

    let result = precompile.unstake_all(&call_from(caller), word(&drained));
    assert_eq!(run_v2(&mut precompile, result), Ok(()));

    assert_eq!(precompile.runtime.stake(&drained, &coldkey, netuid), 0);
    assert_eq!(
        precompile.runtime.stake(&drained, &coldkey, second_netuid),
        0
    );
    assert_staking_hotkeys_page(&precompile, caller, &coldkey, &[drained]);
}

#[test]
fn staking_hotkeys_view_keeps_the_origin_hotkey_emptied_by_move_stake() {
    let mut precompile = v2();
    let netuid = setup_staking_subnet(&mut precompile.runtime);
    let caller = addr_from_index(0x300c);
    let coldkey = mapped_account(caller);
    let origin = AccountId([0xc1; 32]);
    let destination = AccountId([0xc2; 32]);

    fund_account(&mut precompile.runtime, &coldkey, COLDKEY_BALANCE);
    add_stake_v2(
        &mut precompile,
        caller,
        &origin,
        TEST_NETUID_U16,
        INITIAL_STAKE_RAO,
    );
    ensure_hotkey_exists(&mut precompile.runtime, &destination);
    let moved = precompile.runtime.stake(&origin, &coldkey, netuid);
    assert!(moved > 0);

    let result = precompile.move_stake(
        &call_from(caller),
        word(&origin),
        word(&destination),
        net(TEST_NETUID_U16),
        net(TEST_NETUID_U16),
        num(moved),
    );
    assert_eq!(run_v2(&mut precompile, result), Ok(()));

    assert_eq!(precompile.runtime.stake(&origin, &coldkey, netuid), 0);
    assert!(precompile.runtime.stake(&destination, &coldkey, netuid) > 0);
    assert_staking_hotkeys_page(&precompile, caller, &coldkey, &[origin, destination]);
}

#[test]
fn staking_hotkeys_view_keeps_hotkeys_emptied_by_transfer_stake() {
    let mut precompile = v2();
    let netuid = setup_staking_subnet(&mut precompile.runtime);
    let caller = addr_from_index(0x300d);
    let coldkey = mapped_account(caller);
    let recipient = AccountId([0xd9; 32]);
    let hotkey = AccountId([0xd1; 32]);

    fund_account(&mut precompile.runtime, &coldkey, COLDKEY_BALANCE);
    add_stake_v2(
        &mut precompile,
        caller,
        &hotkey,
        TEST_NETUID_U16,
        INITIAL_STAKE_RAO,
    );
    let transferred = precompile.runtime.stake(&hotkey, &coldkey, netuid);
    assert!(transferred > 0);

    let result = precompile.transfer_stake(
        &call_from(caller),
        word(&recipient),
        word(&hotkey),
        net(TEST_NETUID_U16),
        net(TEST_NETUID_U16),
        num(transferred),
    );
    assert_eq!(run_v2(&mut precompile, result), Ok(()));

    assert_eq!(precompile.runtime.stake(&hotkey, &coldkey, netuid), 0);
    assert!(precompile.runtime.stake(&hotkey, &recipient, netuid) > 0);
    assert_staking_hotkeys_page(&precompile, caller, &coldkey, &[hotkey]);
    assert_staking_hotkeys_page(&precompile, caller, &recipient, &[hotkey]);
}

#[test]
fn staking_hotkeys_view_returns_a_registered_hotkey_that_never_held_stake() {
    let mut precompile = v2();
    let netuid = setup_staking_subnet(&mut precompile.runtime);
    let caller = addr_from_index(0x300e);
    let coldkey = mapped_account(caller);
    let never_staked = AccountId([0xe1; 32]);

    // Registering binds the hotkey to the coldkey.
    precompile.runtime.owners.insert(never_staked.0, coldkey);
    precompile.runtime.list_hotkey(&coldkey, &never_staked);

    assert_eq!(precompile.runtime.stake(&never_staked, &coldkey, netuid), 0);
    assert_staking_hotkeys_page(&precompile, caller, &coldkey, &[never_staked]);
}

#[test]
fn staking_state_views_return_typed_values_and_missing_state() {
    let mut precompile = v2();
    let netuid = TEST_NETUID_U16;
    let mut handle = call_from(addr_from_index(0x3006));
    let handle = &mut handle;
    let hotkey = AccountId([0x71; 32]);
    let coldkey = AccountId([0x72; 32]);
    let hotkey_word = word(&hotkey);
    let coldkey_word = word(&coldkey);

    precompile.runtime.delegates.insert(hotkey.0, 123);
    precompile.runtime.owners.insert(hotkey.0, coldkey);
    precompile.runtime.owned.insert(coldkey.0, vec![hotkey]);
    let chain = &precompile.runtime;

    assert_eq!(
        precompile.get_delegate(handle, hotkey_word),
        Ok((true, 123_u16))
    );
    assert_eq!(
        precompile.get_childkey_take(handle, hotkey_word, netuid),
        Ok(chain.childkey_take(hotkey, netuid))
    );
    assert_eq!(
        precompile.get_pending_child_keys(handle, hotkey_word, netuid),
        Ok((vec![], 0_u64))
    );
    assert_eq!(
        precompile.get_child_keys(handle, hotkey_word, netuid),
        Ok(vec![])
    );
    assert_eq!(
        precompile.get_parent_keys(handle, hotkey_word, netuid),
        Ok(vec![])
    );
    assert_eq!(
        precompile.get_pending_childkey_cooldown(handle),
        Ok(chain.pending_child_key_cooldown())
    );
    assert_eq!(
        precompile.get_take_limits(handle),
        Ok((
            chain.min_delegate_take(),
            chain.max_delegate_take(),
            chain.min_childkey_take(),
            chain.max_childkey_take(),
        ))
    );
    assert_eq!(
        precompile.get_min_childkey_take_per_subnet(handle, netuid),
        Ok(chain.min_childkey_take_per_subnet(netuid))
    );
    assert_eq!(
        precompile.get_hotkey_owner(handle, hotkey_word),
        Ok((true, coldkey_word))
    );
    assert_eq!(
        precompile.get_owned_hotkeys(handle, coldkey_word),
        Ok(vec![hotkey_word])
    );
    assert_eq!(
        precompile.get_auto_stake_destination(handle, coldkey_word, netuid),
        Ok((false, H256::zero()))
    );
    assert_eq!(
        precompile.get_auto_stake_destination_coldkeys(handle, hotkey_word, netuid),
        Ok(vec![])
    );
    assert_eq!(
        precompile.get_hotkey_successor(handle, hotkey_word, netuid),
        Ok((false, H256::zero()))
    );
    assert_eq!(
        precompile.get_hotkey_root(handle, hotkey_word, netuid),
        Ok((false, H256::zero()))
    );
    assert_eq!(
        precompile.get_coldkey_successor(handle, coldkey_word),
        Ok((false, H256::zero()))
    );
    assert_eq!(
        precompile.get_coldkey_root(handle, coldkey_word),
        Ok((false, H256::zero()))
    );
    assert_eq!(
        precompile.get_coldkey_swap_status(handle, coldkey_word),
        Ok((false, 0_u64, H256::zero(), false, 0_u64))
    );
    assert_eq!(
        precompile.get_coldkey_swap_delays(handle),
        Ok((
            chain.coldkey_swap_announcement_delay(),
            chain.coldkey_swap_reannouncement_delay(),
        ))
    );
    assert_eq!(
        precompile.get_last_hotkey_swap_on_subnet(handle, coldkey_word, netuid),
        Ok(0_u64)
    );
    assert_eq!(
        precompile.get_stake_accounting(handle),
        Ok((chain.total_issuance(), chain.total_stake()))
    );
    assert_eq!(
        precompile.get_miner_collateral(handle, netuid, hotkey_word, coldkey_word),
        Ok((false, 0_u64, 0_u128, 0_u64, 0_u64))
    );
    assert_eq!(
        precompile.get_coldkey_collateral(handle, netuid, coldkey_word),
        Ok((0_u64, vec![]))
    );
    assert_eq!(
        precompile.get_collateral_config(handle, netuid),
        Ok((
            chain.collateral_lock_share(netuid),
            chain.collateral_drain_ratio(netuid),
        ))
    );
}

#[test]
fn staking_precompile_v2_claims_root_for_one_hotkey_and_all_hotkeys() {
    let mut precompile = v2();
    let netuid = setup_staking_subnet(&mut precompile.runtime);
    fund_account(&mut precompile.runtime, &AccountId([0xf1; 32]), RESERVE_TAO);
    let caller = addr_from_index(0x3060);
    let coldkey = mapped_account(caller);
    let hotkey_a = AccountId([0x81; 32]);
    let hotkey_b = AccountId([0x82; 32]);

    setup_root_basket_position(
        &mut precompile.runtime,
        &coldkey,
        &hotkey_a,
        netuid,
        25,
        100,
        100_000_000_000,
    );
    setup_root_basket_position(
        &mut precompile.runtime,
        &coldkey,
        &hotkey_b,
        netuid,
        40,
        100,
        100_000_000_000,
    );
    precompile
        .runtime
        .staking_hotkeys
        .insert(coldkey.0, vec![hotkey_a, hotkey_b]);

    assert!(precompile.runtime.get_basket_payout_tao(hotkey_a, coldkey) > 0);
    let result = precompile.claim_root_with_hotkey(&call_from(caller), word(&hotkey_a));
    assert_eq!(run_v2(&mut precompile, result), Ok(()));
    assert_eq!(
        precompile.runtime.get_basket_payout_tao(hotkey_a, coldkey),
        0
    );
    assert!(precompile.runtime.get_basket_payout_tao(hotkey_b, coldkey) > 0);

    let result = precompile.claim_root(&call_from(caller), vec![TEST_NETUID_U16]);
    assert_eq!(run_v2(&mut precompile, result), Ok(()));
    assert_eq!(
        precompile.runtime.get_basket_payout_tao(hotkey_b, coldkey),
        0
    );
}

#[test]
fn staking_precompile_v2_reads_unclaimed_root_value_by_hotkey_and_subnet() {
    let mut precompile = v2();
    let netuid = setup_staking_subnet(&mut precompile.runtime);
    let caller = addr_from_index(0x3061);
    let coldkey = mapped_account(caller);
    let hotkey_a = AccountId([0x83; 32]);
    let hotkey_b = AccountId([0x84; 32]);
    let coldkey_word = word(&coldkey);

    setup_root_basket_position(
        &mut precompile.runtime,
        &coldkey,
        &hotkey_a,
        netuid,
        20,
        100,
        80_000_000_000,
    );
    setup_root_basket_position(
        &mut precompile.runtime,
        &coldkey,
        &hotkey_b,
        netuid,
        30,
        100,
        60_000_000_000,
    );
    precompile
        .runtime
        .staking_hotkeys
        .insert(coldkey.0, vec![hotkey_a, hotkey_b]);

    let hotkey_payout = precompile.runtime.get_basket_payout_tao(hotkey_a, coldkey);
    let mut handle = call_from(caller);
    assert_eq!(
        precompile.get_unclaimed_root_tao_by_hotkey(&mut handle, coldkey_word, word(&hotkey_a)),
        Ok(substrate_to_evm(hotkey_payout))
    );
    assert_eq!(
        cost(&handle),
        DB_READ_GAS * (1 + (SUBNET_LIMIT + 1) * ROOT_UNCLAIMED_READS_PER_HOTKEY)
    );

    let subnet_payout_a = precompile
        .runtime
        .get_basket_subnet_payout_tao(hotkey_a, coldkey, netuid);
    let subnet_payout_b = precompile
        .runtime
        .get_basket_subnet_payout_tao(hotkey_b, coldkey, netuid);
    let mut handle = call_from(caller);
    assert_eq!(
        precompile.get_unclaimed_root_tao_by_subnet(
            &mut handle,
            coldkey_word,
            TEST_NETUID_U16,
            vec![word(&hotkey_a), word(&hotkey_b)],
        ),
        Ok(substrate_to_evm(
            subnet_payout_a.saturating_add(subnet_payout_b)
        ))
    );
    assert_eq!(
        cost(&handle),
        DB_READ_GAS * 2 * ROOT_UNCLAIMED_READS_PER_HOTKEY
    );
}

#[test]
fn staking_precompile_v2_bounds_and_deduplicates_unclaimed_root_hotkeys() {
    let precompile = v2();
    let caller = addr_from_index(0x3062);
    let coldkey = H256([0x85; 32]);
    let too_many = vec![H256([0x86; 32]); 65];

    assert_eq!(
        precompile.get_unclaimed_root_tao_by_subnet(
            &mut call_from(caller),
            coldkey,
            TEST_NETUID_U16,
            too_many,
        ),
        Err(reverts("hotkeys: Value is too large for length"))
    );

    let duplicate = H256([0x87; 32]);
    assert_eq!(
        precompile.get_unclaimed_root_tao_by_subnet(
            &mut call_from(caller),
            coldkey,
            TEST_NETUID_U16,
            vec![duplicate, duplicate],
        ),
        Err(reverts("duplicate unclaimed root hotkey"))
    );
}

fn approver() -> H160 {
    addr_from_index(0x5001)
}

fn spender() -> H160 {
    addr_from_index(0x5002)
}

fn allowance_of(precompile: &StakingPrecompileV2<Chain>, netuid: u16) -> U256 {
    precompile
        .allowance(
            &mut call_from(spender()),
            approver(),
            spender(),
            net(netuid),
        )
        .unwrap()
}

#[test]
fn the_indices_are_those_of_the_two_precompiles() {
    assert_eq!(StakingPrecompileV2::<Chain>::INDEX, 2053);
    assert_eq!(StakingPrecompile::<Chain>::INDEX, 2049);
}

#[test]
fn the_allowances_are_stored_under_their_names() {
    use_names(
        evm_staking::precompile::allowances::AllowancesPrefix::pallet_prefix(),
        evm_staking::precompile::allowances::AllowancesPrefix::storage_prefix(),
    );
}

fn use_names(pallet: &str, map: &str) {
    assert_eq!(pallet, "EvmPrecompileStaking");
    assert_eq!(map, "Allowances");
}

#[test]
fn an_allowance_is_its_own_for_each_subnet_spender_and_registration() {
    let mut precompile = v2();
    setup_staking_subnet(&mut precompile.runtime);
    setup_staking_subnet_id(&mut precompile.runtime, SECOND_NETUID_U16);
    let mut handle = call_from(approver());
    assert_eq!(
        precompile.approve(&mut handle, spender(), net(TEST_NETUID_U16), num(50)),
        Ok(())
    );
    assert_eq!(allowance_of(&precompile, TEST_NETUID_U16), num(50));
    assert_eq!(allowance_of(&precompile, SECOND_NETUID_U16), U256::zero());
    assert_eq!(
        precompile.allowance(&mut handle, spender(), approver(), net(TEST_NETUID_U16)),
        Ok(U256::zero())
    );

    // The subnet is registered anew: what was approved before counts no more.
    setup_staking_subnet(&mut precompile.runtime);
    assert_eq!(allowance_of(&precompile, TEST_NETUID_U16), U256::zero());
    assert_eq!(
        precompile.transfer_stake_from(
            &mut call_from(spender()),
            approver(),
            spender(),
            word(&hotkey()),
            net(TEST_NETUID_U16),
            net(TEST_NETUID_U16),
            num(1),
        ),
        Err(reverts("trying to spend more than allowed"))
    );
}

#[test]
fn raising_and_lowering_stay_within_the_range() {
    let mut precompile = v2();
    let mut handle = call_from(approver());
    let subnet = net(TEST_NETUID_U16);
    precompile
        .approve(&mut handle, spender(), subnet, max_u256())
        .unwrap();
    precompile
        .increase_allowance(&mut handle, spender(), subnet, num(1))
        .unwrap();
    assert_eq!(allowance_of(&precompile, TEST_NETUID_U16), max_u256());
    precompile
        .decrease_allowance(&mut handle, spender(), subnet, num(1))
        .unwrap();
    assert_eq!(
        allowance_of(&precompile, TEST_NETUID_U16),
        U256 {
            limbs: [u64::MAX - 1, u64::MAX, u64::MAX, u64::MAX]
        }
    );
    precompile
        .approve(&mut handle, spender(), subnet, num(5))
        .unwrap();
    precompile
        .increase_allowance(&mut handle, spender(), subnet, from_u128(u64::MAX as u128))
        .unwrap();
    assert_eq!(
        allowance_of(&precompile, TEST_NETUID_U16),
        from_u128(u64::MAX as u128 + 5)
    );
    precompile
        .decrease_allowance(&mut handle, spender(), subnet, max_u256())
        .unwrap();
    assert_eq!(allowance_of(&precompile, TEST_NETUID_U16), U256::zero());
}

#[test]
fn lowering_undoes_raising() {
    let mut precompile = v2();
    let mut handle = call_from(approver());
    let subnet = net(TEST_NETUID_U16);
    precompile
        .approve(&mut handle, spender(), subnet, num(7))
        .unwrap();
    precompile
        .increase_allowance(&mut handle, spender(), subnet, num(35))
        .unwrap();
    assert_eq!(allowance_of(&precompile, TEST_NETUID_U16), num(42));
    precompile
        .decrease_allowance(&mut handle, spender(), subnet, num(35))
        .unwrap();
    assert_eq!(allowance_of(&precompile, TEST_NETUID_U16), num(7));
}

#[test]
fn changing_an_allowance_by_nothing_is_free() {
    let mut precompile = v2();
    let mut handle = call_from(approver());
    handle.gas_left = 0;
    for subnet in [net(TEST_NETUID_U16), max_u256()] {
        assert_eq!(
            precompile.increase_allowance(&mut handle, spender(), subnet, U256::zero()),
            Ok(())
        );
        assert_eq!(
            precompile.decrease_allowance(&mut handle, spender(), subnet, U256::zero()),
            Ok(())
        );
    }
    assert_eq!(
        precompile.try_consume_allowance(
            &mut handle,
            approver(),
            spender(),
            TEST_NETUID_U16,
            U256::zero()
        ),
        Ok(())
    );
    assert_eq!(handle.gas_left, 0);
}

#[test]
fn spending_step_by_step_ends_at_the_allowance() {
    let mut precompile = v2();
    precompile
        .approve(
            &mut call_from(approver()),
            spender(),
            net(TEST_NETUID_U16),
            num(100),
        )
        .unwrap();
    let mut spent = 0;
    for amount in [60, 60, 30, 20, 10, 1] {
        let outcome = precompile.try_consume_allowance(
            &mut call_from(spender()),
            approver(),
            spender(),
            TEST_NETUID_U16,
            num(amount),
        );
        if outcome.is_ok() {
            spent += amount;
        } else {
            assert_eq!(outcome, Err(reverts("trying to spend more than allowed")));
        }
        assert_eq!(allowance_of(&precompile, TEST_NETUID_U16), num(100 - spent));
    }
    assert_eq!(spent, 100);
}

#[test]
fn a_huge_transfer_spends_all_of_it_and_moves_what_fits() {
    let mut precompile = v2();
    let huge = from_u128(u64::MAX as u128 * 2);
    precompile
        .approve(
            &mut call_from(approver()),
            spender(),
            net(TEST_NETUID_U16),
            huge,
        )
        .unwrap();
    let destination = addr_from_index(0x5003);
    let dispatch = precompile
        .transfer_stake_from(
            &mut call_from(spender()),
            approver(),
            destination,
            word(&hotkey()),
            net(TEST_NETUID_U16),
            net(SECOND_NETUID_U16),
            huge,
        )
        .unwrap();
    assert_eq!(
        dispatch,
        Dispatch {
            signer: approver(),
            call: RuntimeCall::Subtensor(SubtensorCall::TransferStake {
                destination_coldkey: Account::Mapped(destination),
                hotkey: hotkey(),
                origin_netuid: TEST_NETUID_U16,
                destination_netuid: SECOND_NETUID_U16,
                alpha_amount: u64::MAX,
            }),
        }
    );
    assert_eq!(allowance_of(&precompile, TEST_NETUID_U16), U256::zero());
}

#[test]
fn subnets_outside_the_range_are_refused() {
    let mut precompile = v2();
    let wide = num(0x1_0001);
    let refusal = error("the value is outside of u16 bounds");
    let handle = call_from(approver());
    let key = word(&hotkey());
    assert_eq!(
        precompile.add_stake(&handle, key, num(1), wide),
        Err(refusal)
    );
    assert_eq!(
        precompile.remove_stake(&handle, key, num(1), max_u256()),
        Err(refusal)
    );
    assert_eq!(
        precompile.move_stake(&handle, key, key, net(1), wide, num(1)),
        Err(refusal)
    );
    assert_eq!(
        precompile.remove_stake_full_limit(&handle, key, wide, max_u256()),
        Err(error("the value is outside of u64 bounds"))
    );
    assert_eq!(
        precompile.lock_stake(&handle, key, max_u256(), wide),
        Err(refusal)
    );
    let mut handle = call_from(approver());
    assert_eq!(
        precompile.approve(&mut handle, spender(), wide, num(1)),
        Err(refusal)
    );
    assert_eq!(cost(&handle), DB_READ_GAS + DB_WRITE_GAS);
    let mut handle = call_from(approver());
    assert_eq!(
        precompile.get_stake(&mut handle, key, key, wide),
        Err(refusal)
    );
    assert_eq!(cost(&handle), stake_read_cost(1));
    let mut handle = call_from(approver());
    assert_eq!(
        precompile.get_alpha_staked_validators(&mut handle, key, wide),
        Err(refusal)
    );
    assert_eq!(cost(&handle), 0);
}

#[test]
fn amounts_above_the_largest_u64_are_cut_off() {
    let precompile = v2();
    let handle = call_from(approver());
    let dispatch = precompile
        .add_stake_limit(
            &handle,
            word(&hotkey()),
            from_u128(u64::MAX as u128 + 1),
            max_u256(),
            false,
            net(7),
        )
        .unwrap();
    assert_eq!(
        dispatch,
        Dispatch {
            signer: approver(),
            call: RuntimeCall::Subtensor(SubtensorCall::AddStakeLimit {
                hotkey: hotkey(),
                netuid: 7,
                amount_staked: u64::MAX,
                limit_price: u64::MAX,
                allow_partial: false,
            }),
        }
    );
}

#[test]
fn running_out_of_gas_stops_the_call() {
    let mut precompile = v2();
    let mut handle = call_from(approver());
    handle.gas_left = DB_READ_GAS + DB_WRITE_GAS - 1;
    assert_eq!(
        precompile.approve(&mut handle, spender(), net(TEST_NETUID_U16), num(5)),
        Err(out_of_gas())
    );
    // The read was paid for, the write was not.
    assert_eq!(handle.gas_left, DB_WRITE_GAS - 1);
    assert_eq!(allowance_of(&precompile, TEST_NETUID_U16), U256::zero());

    handle.gas_left = DB_READ_GAS - 1;
    assert_eq!(
        precompile.get_default_min_stake(&mut handle),
        Err(out_of_gas())
    );
    assert_eq!(handle.gas_left, DB_READ_GAS - 1);

    handle.gas_left = stake_info_validation_cost(2) - 1;
    let hotkeys = vec![H256([1; 32]), H256([2; 32])];
    assert_eq!(
        precompile.get_stake_info_for_coldkey_and_netuid(
            &mut handle,
            H256([3; 32]),
            net(1),
            hotkeys
        ),
        Err(out_of_gas())
    );

    handle.gas_left = GAS;
    handle.db_read_gas = u64::MAX;
    assert_eq!(
        precompile.get_total_hotkey_stake(&mut handle, H256([3; 32])),
        Err(out_of_gas())
    );
}

#[test]
fn walking_a_hotkeys_coldkeys_is_charged_row_by_row() {
    let mut precompile = v2();
    let on = hotkey();
    for (coldkey, netuid) in [(1u8, 1u16), (2, 2), (3, 1)] {
        precompile
            .runtime
            .increase_stake(&on, &AccountId([coldkey; 32]), netuid, 10);
    }
    let mut handle = call_from(approver());
    assert_eq!(
        precompile.get_alpha_staked_validators(&mut handle, word(&on), net(1)),
        Ok(vec![H256([1; 32]), H256([3; 32])])
    );
    assert_eq!(cost(&handle), 3 * DB_READ_GAS);

    handle.gas_left = 2 * DB_READ_GAS + 7;
    assert_eq!(
        precompile.get_alpha_staked_validators(&mut handle, word(&on), net(1)),
        Err(out_of_gas())
    );
    assert_eq!(handle.gas_left, 7);
}

#[test]
fn a_total_over_one_subnet_is_charged_for_what_it_skips_too() {
    let mut precompile = v2();
    let coldkey = AccountId([0x92; 32]);
    let on = hotkey();
    for netuid in [1u16, 2, 3] {
        precompile
            .runtime
            .increase_stake(&on, &coldkey, netuid, 10 * netuid as u64);
    }
    precompile
        .runtime
        .old_shares
        .insert((on.0, coldkey.0, 2));

    let mut handle = call_from(approver());
    assert_eq!(
        precompile.get_total_coldkey_stake(&mut handle, word(&coldkey)),
        Ok(num(60))
    );
    assert_eq!(cost(&handle), DB_READ_GAS * (2 + 4 * 22));

    let mut handle = call_from(approver());
    assert_eq!(
        precompile.get_total_coldkey_stake_on_subnet(&mut handle, word(&coldkey), net(2)),
        Ok(num(20))
    );
    assert_eq!(cost(&handle), DB_READ_GAS * (2 + 4 * 2 + 2 * 20));
}

#[test]
fn pages_one_after_the_other_give_the_whole_list() {
    let mut precompile = v2();
    let coldkey = AccountId([0x74; 32]);
    let stored: Vec<AccountId> = (0u8..11).map(|i| AccountId([i; 32])).collect();
    precompile
        .runtime
        .staking_hotkeys
        .insert(coldkey.0, stored.clone());
    let mut seen = Vec::new();
    let mut offset = 0;
    while offset < 11 {
        let (page, total) = precompile
            .get_staking_hotkeys(&mut call_from(approver()), word(&coldkey), offset, 4)
            .unwrap();
        assert_eq!(total, 11);
        seen.extend(page);
        offset += 4;
    }
    assert_eq!(seen, stored.iter().map(word).collect::<Vec<H256>>());
}

#[test]
fn the_owners_buckets_count_on_the_owners_hotkey() {
    let mut precompile = v2();
    let owner = hotkey();
    let lock = |locked_mass: u64, conviction: u128| LockState {
        locked_mass,
        conviction,
        last_update: 0,
    };
    precompile.runtime.owner_hotkeys.insert(1, owner);
    precompile
        .runtime
        .locks
        .insert(([1; 32], 1), (owner, lock(u64::MAX, u128::MAX)));
    precompile
        .runtime
        .locks
        .insert(([2; 32], 1), (owner, lock(5, 9)));
    precompile.runtime.perpetual.insert(([1; 32], 1));

    // Both sums stop at the top of their range.
    assert_eq!(
        precompile.get_hotkey_lock(&mut call_from(approver()), word(&owner), net(1)),
        Ok((true, num(u64::MAX), u128::MAX))
    );
    precompile
        .runtime
        .locks
        .insert(([1; 32], 1), (owner, lock(3, 1)));
    assert_eq!(
        precompile.get_hotkey_lock(&mut call_from(approver()), word(&owner), net(1)),
        Ok((true, num(8), 10))
    );
    // The hotkey is no longer the owner's, and has buckets of its own.
    precompile.runtime.owner_hotkeys.clear();
    assert_eq!(
        precompile.get_hotkey_lock(&mut call_from(approver()), word(&owner), net(1)),
        Ok((true, num(8), 10))
    );
    assert_eq!(
        precompile.get_hotkey_lock(&mut call_from(approver()), H256([9; 32]), net(1)),
        Ok((false, U256::zero(), 0))
    );
}

#[test]
fn state_views_give_what_is_stored() {
    let mut precompile = v2();
    let hotkey = AccountId([0x71; 32]);
    let coldkey = AccountId([0x72; 32]);
    let other = AccountId([0x73; 32]);
    let chain = &mut precompile.runtime;
    chain
        .children
        .insert((hotkey.0, 1), vec![(5, coldkey), (6, other)]);
    chain.auto_stake.insert((coldkey.0, 1), hotkey);
    chain.successors.insert(coldkey.0, other);
    chain.successors.insert(hotkey.0, other);
    chain.announcements.insert(coldkey.0, (33, [0x44; 32]));
    chain.disputes.insert(coldkey.0, 55);
    chain.collateral.insert(
        (1, hotkey.0, coldkey.0),
        CollateralState {
            locked: 1,
            drain_ratio: 2,
            min_locked: 3,
            earned: 4,
        },
    );
    let mut handle = call_from(approver());
    let handle = &mut handle;
    assert_eq!(
        precompile.get_pending_child_keys(handle, word(&hotkey), 1),
        Ok((vec![(5, word(&coldkey)), (6, word(&other))], 77))
    );
    assert_eq!(
        precompile.get_child_keys(handle, word(&hotkey), 1),
        Ok(vec![(5, word(&coldkey)), (6, word(&other))])
    );
    assert_eq!(
        precompile.get_parent_keys(handle, word(&other), 1),
        Ok(vec![(6, word(&hotkey))])
    );
    assert_eq!(
        precompile.get_auto_stake_destination(handle, word(&coldkey), 1),
        Ok((true, word(&hotkey)))
    );
    assert_eq!(
        precompile.get_auto_stake_destination_coldkeys(handle, word(&hotkey), 1),
        Ok(vec![word(&coldkey)])
    );
    assert_eq!(
        precompile.get_hotkey_successor(handle, word(&hotkey), 1),
        Ok((true, word(&other)))
    );
    assert_eq!(
        precompile.get_hotkey_successor(handle, word(&hotkey), 2),
        Ok((false, H256::zero()))
    );
    assert_eq!(
        precompile.get_hotkey_root(handle, word(&other), 1),
        Ok((true, word(&hotkey)))
    );
    assert_eq!(
        precompile.get_coldkey_successor(handle, word(&coldkey)),
        Ok((true, word(&other)))
    );
    assert_eq!(
        precompile.get_coldkey_root(handle, word(&other)),
        Ok((true, word(&hotkey)))
    );
    assert_eq!(
        precompile.get_coldkey_swap_status(handle, word(&coldkey)),
        Ok((true, 33, H256([0x44; 32]), true, 55))
    );
    assert_eq!(
        precompile.get_last_hotkey_swap_on_subnet(handle, word(&coldkey), 1),
        Ok(901)
    );
    assert_eq!(
        precompile.get_miner_collateral(handle, 1, word(&hotkey), word(&coldkey)),
        Ok((true, 1, 2, 3, 4))
    );
    assert_eq!(
        precompile.get_coldkey_collateral(handle, 1, word(&coldkey)),
        Ok((1, vec![word(&hotkey)]))
    );
    assert_eq!(
        precompile.get_delegate(handle, word(&hotkey)),
        Ok((false, 0))
    );
    assert_eq!(
        precompile.get_hotkey_owner(handle, word(&hotkey)),
        Ok((false, H256::zero()))
    );
}

fn subtensor_call(result: EvmResult<Dispatch>) -> SubtensorCall {
    let dispatch = result.unwrap();
    assert_eq!(dispatch.signer, approver());
    match dispatch.call {
        RuntimeCall::Subtensor(call) => call,
        other => panic!("not a subtensor call: {other:?}"),
    }
}

fn admin_call(result: EvmResult<Dispatch>) -> AdminCall {
    let dispatch = result.unwrap();
    assert_eq!(dispatch.signer, approver());
    match dispatch.call {
        RuntimeCall::AdminUtils(call) => call,
        other => panic!("not an admin call: {other:?}"),
    }
}

#[test]
fn calls_with_plain_arguments_are_passed_on() {
    let precompile = v2();
    let handle = call_from(approver());
    let a = AccountId([0xa; 32]);
    let b = AccountId([0xb; 32]);
    let c = AccountId([0xc; 32]);
    assert_eq!(
        subtensor_call(precompile.decrease_take(&handle, word(&a), 5)),
        SubtensorCall::DecreaseTake { hotkey: a, take: 5 }
    );
    assert_eq!(
        subtensor_call(precompile.increase_take(&handle, word(&a), 6)),
        SubtensorCall::IncreaseTake { hotkey: a, take: 6 }
    );
    assert_eq!(
        subtensor_call(precompile.set_childkey_take(&handle, word(&a), 2, 7)),
        SubtensorCall::SetChildkeyTake {
            hotkey: a,
            netuid: 2,
            take: 7
        }
    );
    assert_eq!(
        subtensor_call(precompile.unstake_all_alpha(&handle, word(&a))),
        SubtensorCall::UnstakeAllAlpha { hotkey: a }
    );
    assert_eq!(
        subtensor_call(precompile.swap_stake(&handle, word(&a), 1, 2, 3)),
        SubtensorCall::SwapStake {
            hotkey: a,
            origin_netuid: 1,
            destination_netuid: 2,
            alpha_amount: 3
        }
    );
    assert_eq!(
        subtensor_call(precompile.swap_stake_limit(&handle, word(&a), 1, 2, 3, 4, true)),
        SubtensorCall::SwapStakeLimit {
            hotkey: a,
            origin_netuid: 1,
            destination_netuid: 2,
            alpha_amount: 3,
            limit_price: 4,
            allow_partial: true
        }
    );
    assert_eq!(
        subtensor_call(precompile.recycle_alpha(&handle, word(&a), 8, 1)),
        SubtensorCall::RecycleAlpha {
            hotkey: a,
            amount: 8,
            netuid: 1
        }
    );
    assert_eq!(
        subtensor_call(precompile.set_coldkey_auto_stake_hotkey(&handle, 3, word(&a))),
        SubtensorCall::SetColdkeyAutoStakeHotkey {
            netuid: 3,
            hotkey: a
        }
    );
    assert_eq!(
        subtensor_call(precompile.set_root_claim_threshold(&handle, 3, 9)),
        SubtensorCall::SudoSetRootClaimThreshold {
            netuid: 3,
            new_value: 9
        }
    );
    for (has_limit, limit) in [(true, Some(11)), (false, None)] {
        assert_eq!(
            subtensor_call(precompile.add_stake_burn(&handle, word(&a), 1, 10, has_limit, 11)),
            SubtensorCall::AddStakeBurn {
                hotkey: a,
                netuid: 1,
                amount: 10,
                limit
            }
        );
    }
    assert_eq!(
        subtensor_call(precompile.set_auto_parent_delegation_enabled(&handle, word(&a), true)),
        SubtensorCall::SetAutoParentDelegationEnabled {
            hotkey: a,
            enabled: true
        }
    );
    assert_eq!(
        subtensor_call(precompile.transfer_stake_and_hotkey(
            &handle,
            word(&a),
            word(&b),
            word(&c),
            1,
            2,
            3
        )),
        SubtensorCall::TransferStakeAndHotkey {
            destination_coldkey: a,
            origin_hotkey: b,
            destination_hotkey: c,
            origin_netuid: 1,
            destination_netuid: 2,
            alpha_amount: 3
        }
    );
    assert_eq!(
        subtensor_call(precompile.add_collateral(&handle, 1, word(&a), 2, 3)),
        SubtensorCall::AddCollateral {
            netuid: 1,
            hotkey: a,
            alpha: 2,
            limit_price: 3
        }
    );
    assert_eq!(
        subtensor_call(precompile.set_min_collateral(&handle, 1, word(&a), 2)),
        SubtensorCall::SetMinCollateral {
            netuid: 1,
            hotkey: a,
            min_locked: 2
        }
    );
    assert_eq!(
        subtensor_call(precompile.transfer_stake(
            &handle,
            word(&a),
            word(&b),
            net(1),
            net(2),
            num(3)
        )),
        SubtensorCall::TransferStake {
            destination_coldkey: Account::Native(a),
            hotkey: b,
            origin_netuid: 1,
            destination_netuid: 2,
            alpha_amount: 3
        }
    );
    assert_eq!(
        subtensor_call(precompile.remove_stake_full(&handle, word(&a), net(1))),
        SubtensorCall::RemoveStakeFullLimit {
            hotkey: a,
            netuid: 1,
            limit_price: None
        }
    );
    assert_eq!(
        subtensor_call(precompile.remove_stake_full_limit(&handle, word(&a), net(1), num(4))),
        SubtensorCall::RemoveStakeFullLimit {
            hotkey: a,
            netuid: 1,
            limit_price: Some(4)
        }
    );
    assert_eq!(
        admin_call(precompile.set_min_childkey_take_per_subnet(&handle, 1, 2)),
        AdminCall::SudoSetMinChildkeyTakePerSubnet { netuid: 1, take: 2 }
    );
    assert_eq!(
        admin_call(precompile.set_collateral_lock_share(&handle, 1, 2)),
        AdminCall::SudoSetCollateralLockShare {
            netuid: 1,
            lock_share: 2
        }
    );
    assert_eq!(
        admin_call(precompile.set_collateral_drain_ratio(&handle, 1, u128::MAX)),
        AdminCall::SudoSetCollateralDrainRatio {
            netuid: 1,
            drain_ratio: u128::MAX
        }
    );
}

#[test]
fn subnets_to_claim_for_are_counted_once_and_are_five_at_most() {
    let precompile = v2();
    let handle = call_from(approver());
    assert_eq!(
        subtensor_call(precompile.claim_root(&handle, vec![3, 1, 3, 2, 1])),
        SubtensorCall::ClaimRoot {
            subnets: BTreeSet::from([1, 2, 3])
        }
    );
    assert_eq!(
        precompile.claim_root(&handle, vec![1, 1, 1, 1, 1, 1]),
        Err(reverts("subnets: Value is too large for length"))
    );
}

#[test]
fn the_older_precompile_gives_back_what_it_stakes() {
    let precompile = v1();
    let mut handle = call_from(approver());
    handle.apparent_value = substrate_to_evm(77);
    let transfer = precompile.transfer_back(&handle).unwrap().unwrap();
    assert_eq!(
        transfer,
        Transfer {
            source: 2049,
            dest: approver(),
            value: 77
        }
    );
    assert_eq!(
        subtensor_call(precompile.add_stake(
            &handle,
            word(&hotkey()),
            net(1),
            TransferBack::Done
        )),
        SubtensorCall::AddStake {
            hotkey: hotkey(),
            netuid: 1,
            amount_staked: 77
        }
    );
}

#[test]
fn the_older_precompile_fails_on_each_step() {
    let mut precompile = v1();
    let mut handle = call_from(approver());
    let key = word(&hotkey());
    let out_of_fund = PrecompileFailure::Error {
        exit_status: ExitError::OutOfFund,
    };
    assert_eq!(precompile.transfer_back(&handle), Ok(None));
    handle.apparent_value = max_u256();
    assert_eq!(precompile.transfer_back(&handle), Err(out_of_fund));
    assert_eq!(
        precompile.add_stake(&handle, key, net(1), TransferBack::Done),
        Err(error("no native amount"))
    );
    handle.apparent_value = substrate_to_evm(77);
    precompile.runtime.least_balance_refused = Some(77);
    assert_eq!(
        precompile.transfer_back(&handle),
        Err(error("Failed to convert u64 to Balance"))
    );
    assert_eq!(
        precompile.add_stake(&handle, key, net(1), TransferBack::Failed),
        Err(error("Transfer back to caller failed"))
    );
    assert_eq!(
        precompile.add_stake(&handle, key, num(70_000), TransferBack::Done),
        Err(error("the value is outside of u16 bounds"))
    );
    assert_eq!(
        precompile.remove_stake(&handle, key, max_u256(), net(1)),
        Err(out_of_fund)
    );
    assert_eq!(
        precompile.remove_stake(&handle, key, max_u256(), num(70_000)),
        Err(error("the value is outside of u16 bounds"))
    );
}

#[test]
fn amounts_without_evm_units_are_out_of_range() {
    let invalid = PrecompileFailure::Error {
        exit_status: ExitError::InvalidRange,
    };
    assert_eq!(
        evm_staking::precompile::convert::evm_amount(None),
        Err(invalid)
    );
    assert_eq!(
        evm_staking::precompile::convert::evm_amount(Some(num(3))),
        Ok(num(3))
    );
}

#[test]
fn totals_of_payouts_stop_at_the_top() {
    assert_eq!(
        evm_staking::precompile::lists::saturating_total(&vec![u64::MAX - 1, 1, 1]),
        u64::MAX
    );
    assert_eq!(
        evm_staking::precompile::lists::saturating_total(&vec![2, 3]),
        5
    );
}

#[test]
fn the_older_stake_is_the_newer_in_evm_units() {
    let mut newer = v2();
    let mut older = v1();
    let coldkey = AccountId([0x92; 32]);
    let on = hotkey();
    for chain in [&mut newer.runtime, &mut older.runtime] {
        chain.increase_stake(&on, &coldkey, 1, 30);
        chain.increase_stake(&on, &coldkey, 2, 12);
    }
    let (mut a, mut b) = (call_from(approver()), call_from(approver()));
    assert_eq!(
        newer.get_stake(&mut a, word(&on), word(&coldkey), net(1)),
        Ok(num(30))
    );
    assert_eq!(
        older.get_stake(&mut b, word(&on), word(&coldkey), net(1)),
        Ok(substrate_to_evm(30))
    );
    assert_eq!(a, b);
    assert_eq!(
        newer.get_total_coldkey_stake(&mut a, word(&coldkey)),
        Ok(num(42))
    );
    assert_eq!(
        older.get_total_coldkey_stake(&mut b, word(&coldkey)),
        Ok(substrate_to_evm(42))
    );
    assert_eq!(newer.get_total_hotkey_stake(&mut a, word(&on)), Ok(num(42)));
    assert_eq!(
        older.get_total_hotkey_stake(&mut b, word(&on)),
        Ok(substrate_to_evm(42))
    );
    assert_eq!(a, b);
    assert_eq!(
        newer.get_stake(&mut a, word(&on), word(&coldkey), num(70_000)),
        older.get_stake(&mut b, word(&on), word(&coldkey), num(70_000))
    );
}

#[test]
fn the_older_totals_charge_and_fail_as_the_newer_ones() {
    let mut newer = v2();
    let mut older = v1();
    let coldkey = AccountId([0x92; 32]);
    let on = hotkey();
    for chain in [&mut newer.runtime, &mut older.runtime] {
        chain.increase_stake(&on, &coldkey, 1, 30);
        chain.increase_stake(&on, &coldkey, 2, 12);
    }
    let full = call_from(approver());
    let mut charged = full;
    newer
        .get_total_coldkey_stake(&mut charged, word(&coldkey))
        .unwrap();
    let for_coldkey = full.gas_left - charged.gas_left;
    charged = full;
    newer
        .get_total_hotkey_stake(&mut charged, word(&on))
        .unwrap();
    let for_hotkey = full.gas_left - charged.gas_left;
    let out = Err(PrecompileFailure::Error {
        exit_status: ExitError::OutOfGas,
    });
    // Too little for the first charge, too little for the second one, and just enough.
    for (gas, fails) in [(0, true), (for_coldkey - 1, true), (for_coldkey, false)] {
        let (mut a, mut b) = (full, full);
        a.gas_left = gas;
        b.gas_left = gas;
        let in_rao = newer.get_total_coldkey_stake(&mut a, word(&coldkey));
        let converted = older.get_total_coldkey_stake(&mut b, word(&coldkey));
        assert_eq!(a, b);
        assert_eq!(in_rao, if fails { out.clone() } else { Ok(num(42)) });
        let expected = if fails { out.clone() } else { Ok(substrate_to_evm(42)) };
        assert_eq!(converted, expected);
    }
    for (gas, fails) in [(0, true), (for_hotkey - 1, true), (for_hotkey, false)] {
        let (mut a, mut b) = (full, full);
        a.gas_left = gas;
        b.gas_left = gas;
        let in_rao = newer.get_total_hotkey_stake(&mut a, word(&on));
        let converted = older.get_total_hotkey_stake(&mut b, word(&on));
        assert_eq!(a, b);
        assert_eq!(in_rao, if fails { out.clone() } else { Ok(num(42)) });
        let expected = if fails { out.clone() } else { Ok(substrate_to_evm(42)) };
        assert_eq!(converted, expected);
    }
}
