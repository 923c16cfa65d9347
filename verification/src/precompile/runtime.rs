//! What the precompiles read of the chain.
use crate::precompile::failure::EvmResult;
use crate::primitives::AccountId;
use crate::u256::U256;
use vstd::prelude::*;

verus! {

/// A lock on stake as it is stored.
#[derive(Clone, Copy, PartialEq, Eq, Debug)]
pub struct LockState {
    /// The alpha that is locked.
    pub locked_mass: u64,
    /// The conviction built up, as the bits of an unsigned number with 64 bits after the point.
    pub conviction: u128,
    /// The block that the two amounts are of.
    pub last_update: u64,
}

/// A miner's collateral as it is stored.
#[derive(Clone, Copy, PartialEq, Eq, Debug)]
pub struct CollateralState {
    /// The alpha that is locked.
    pub locked: u64,
    /// The drain ratio, as the bits of an unsigned number with 64 bits after the point.
    pub drain_ratio: u128,
    /// The alpha below which the lock may not fall.
    pub min_locked: u64,
    /// The alpha earned so far.
    pub earned: u64,
}

/// The chain that the precompiles stand on. Its answers may differ from call to call: nothing is
/// taken for granted of them.
pub trait Runtime: Sized {
    /// The counter of the subnet's current registration.
    fn get_registered_subnet_counter(&self, netuid: u16) -> u64;

    /// The stake of a coldkey on a hotkey of a subnet, in alpha.
    fn get_stake_for_hotkey_and_coldkey_on_subnet(
        &self,
        hotkey: AccountId,
        coldkey: AccountId,
        netuid: u16,
    ) -> u64;

    /// All stake on a hotkey of a subnet, in alpha.
    fn get_stake_for_hotkey_on_subnet(&self, hotkey: AccountId, netuid: u16) -> u64;

    /// All stake of a coldkey, in rao.
    fn get_total_stake_for_coldkey(&self, coldkey: AccountId) -> u64;

    /// All stake of a coldkey on a subnet, in rao.
    fn get_total_stake_for_coldkey_on_subnet(&self, coldkey: AccountId, netuid: u16) -> u64;

    /// All stake on a hotkey, in rao.
    fn get_total_stake_for_hotkey(&self, hotkey: AccountId) -> u64;

    /// The coldkeys with a position on a hotkey, each with the subnet of the position.
    fn alpha_iter_single_prefix(&self, hotkey: AccountId) -> Vec<(AccountId, u16)>;

    /// The subnets on which the older share table holds a position of a coldkey on a hotkey.
    fn alpha_netuids(&self, hotkey: AccountId, coldkey: AccountId) -> Vec<u16>;

    /// The subnets on which the newer share table holds a position of a coldkey on a hotkey.
    fn alpha_v2_netuids(&self, hotkey: AccountId, coldkey: AccountId) -> Vec<u16>;

    /// The hotkeys stored as those that a coldkey stakes on.
    fn staking_hotkeys(&self, coldkey: AccountId) -> Vec<AccountId>;

    /// The most subnets that there may be.
    fn subnet_limit(&self) -> u64;

    /// The least stake that a nominator must keep.
    fn get_nominator_min_required_stake(&self) -> u64;

    /// The default least stake.
    fn default_min_stake(&self) -> u64;

    /// Whether a coldkey's lock on a subnet decays, where the coldkey has chosen.
    fn decaying_lock(&self, coldkey: AccountId, netuid: u16) -> Option<bool>;

    /// The first stored lock of a coldkey on a subnet, with its hotkey.
    fn first_lock(&self, coldkey: AccountId, netuid: u16) -> Option<(AccountId, LockState)>;

    /// The current block.
    fn get_current_block_as_u64(&self) -> u64;

    /// The hotkey of a subnet's owner.
    fn subnet_owner_hotkey(&self, netuid: u16) -> AccountId;

    /// The timescale over which locks decay.
    fn unlock_rate(&self) -> u64;

    /// The timescale over which conviction matures.
    fn maturity_rate(&self) -> u64;

    /// A lock as it is at block `now`.
    fn roll_forward_lock(
        &self,
        lock: LockState,
        now: u64,
        unlock_rate: u64,
        maturity_rate: u64,
        owner_lock: bool,
        perpetual_lock: bool,
    ) -> LockState;

    /// Whether a lock is small enough to be cleaned up.
    fn lock_is_zero(&self, lock: LockState) -> bool;

    /// The perpetual locks on a hotkey of a subnet, added up.
    fn hotkey_lock(&self, netuid: u16, hotkey: AccountId) -> Option<LockState>;

    /// The decaying locks on a hotkey of a subnet, added up.
    fn decaying_hotkey_lock(&self, netuid: u16, hotkey: AccountId) -> Option<LockState>;

    /// The perpetual locks on the hotkey of a subnet's owner, added up.
    fn owner_lock(&self, netuid: u16) -> Option<LockState>;

    /// The decaying locks on the hotkey of a subnet's owner, added up.
    fn decaying_owner_lock(&self, netuid: u16) -> Option<LockState>;

    /// The conviction of a hotkey on a subnet, as the bits of an unsigned number with 64 bits after
    /// the point.
    fn hotkey_conviction(&self, hotkey: AccountId, netuid: u16) -> u128;

    /// Whether a coldkey refuses stake that carries a lock.
    fn account_rejects_locked_alpha(&self, coldkey: AccountId) -> bool;

    /// What a validator's basket owes a coldkey, in rao.
    fn get_basket_payout_tao(&self, hotkey: AccountId, coldkey: AccountId) -> u64;

    /// What a validator's basket owes a coldkey for its holding on a subnet, in rao.
    fn get_basket_subnet_payout_tao(
        &self,
        hotkey: AccountId,
        coldkey: AccountId,
        netuid: u16,
    ) -> u64;

    /// The take of a delegate, in parts of 65535, as are all takes below.
    fn delegate_take(&self, hotkey: AccountId) -> Option<u16>;

    /// The childkey take of a hotkey on a subnet.
    fn childkey_take(&self, hotkey: AccountId, netuid: u16) -> u16;

    /// The pending children of a parent on a subnet, each with its proportion, and the block of
    /// their cooldown.
    fn pending_child_keys(&self, netuid: u16, parent: AccountId) -> (Vec<(u64, AccountId)>, u64);

    /// The children of a parent on a subnet, each with its proportion.
    fn child_keys(&self, parent: AccountId, netuid: u16) -> Vec<(u64, AccountId)>;

    /// The parents of a child on a subnet, each with its proportion.
    fn parent_keys(&self, child: AccountId, netuid: u16) -> Vec<(u64, AccountId)>;

    /// The cooldown of pending children.
    fn pending_child_key_cooldown(&self) -> u64;

    /// The least take of a delegate.
    fn min_delegate_take(&self) -> u16;

    /// The greatest take of a delegate.
    fn max_delegate_take(&self) -> u16;

    /// The least childkey take.
    fn min_childkey_take(&self) -> u16;

    /// The greatest childkey take.
    fn max_childkey_take(&self) -> u16;

    /// The least childkey take on a subnet.
    fn min_childkey_take_per_subnet(&self, netuid: u16) -> u16;

    /// The coldkey that owns a hotkey.
    fn owner(&self, hotkey: AccountId) -> Option<AccountId>;

    /// The hotkeys that a coldkey owns.
    fn owned_hotkeys(&self, coldkey: AccountId) -> Vec<AccountId>;

    /// The hotkey that a coldkey chose to stake on by itself on a subnet.
    fn auto_stake_destination(&self, coldkey: AccountId, netuid: u16) -> Option<AccountId>;

    /// The coldkeys that chose to stake on a hotkey by themselves on a subnet.
    fn auto_stake_destination_coldkeys(&self, hotkey: AccountId, netuid: u16) -> Vec<AccountId>;

    /// The successor recorded for a hotkey on a subnet.
    fn hotkey_successor(&self, netuid: u16, hotkey: AccountId) -> Option<AccountId>;

    /// The root recorded for a hotkey on a subnet.
    fn hotkey_root(&self, netuid: u16, hotkey: AccountId) -> Option<AccountId>;

    /// The successor recorded for a coldkey.
    fn coldkey_successor(&self, coldkey: AccountId) -> Option<AccountId>;

    /// The root recorded for a coldkey.
    fn coldkey_root(&self, coldkey: AccountId) -> Option<AccountId>;

    /// The announced swap of a coldkey: its block, and the hash of its call.
    fn coldkey_swap_announcement(&self, coldkey: AccountId) -> Option<(u64, [u8; 32])>;

    /// The block of the dispute of a coldkey's swap.
    fn coldkey_swap_dispute(&self, coldkey: AccountId) -> Option<u64>;

    /// The delay of an announced coldkey swap.
    fn coldkey_swap_announcement_delay(&self) -> u64;

    /// The delay before a coldkey swap is announced anew.
    fn coldkey_swap_reannouncement_delay(&self) -> u64;

    /// The block of a coldkey's last hotkey swap on a subnet.
    fn last_hotkey_swap_on_netuid(&self, netuid: u16, coldkey: AccountId) -> u64;

    /// All tokens issued, in rao.
    fn total_issuance(&self) -> u64;

    /// All tokens staked, in rao.
    fn total_stake(&self) -> u64;

    /// The collateral of a miner.
    fn miner_collateral(
        &self,
        netuid: u16,
        hotkey: AccountId,
        coldkey: AccountId,
    ) -> Option<CollateralState>;

    /// All collateral of a coldkey on a subnet.
    fn coldkey_miner_collateral(&self, netuid: u16, coldkey: AccountId) -> u64;

    /// The hotkeys for which a coldkey has collateral on a subnet.
    fn coldkey_collateral_hotkeys(&self, netuid: u16, coldkey: AccountId) -> Vec<AccountId>;

    /// The lock share of collateral on a subnet.
    fn collateral_lock_share(&self, netuid: u16) -> u16;

    /// The drain ratio of collateral on a subnet, as the bits of an unsigned number with 64 bits
    /// after the point.
    fn collateral_drain_ratio(&self, netuid: u16) -> u128;

    /// A native amount in EVM units, where there is one.
    fn into_evm_balance(&self, amount: u64) -> Option<U256>;

    /// An EVM amount in native units, where there is one.
    fn into_substrate_balance(&self, amount: U256) -> Option<U256>;

    /// The value sent with a call, in native units.
    fn try_convert_apparent_value(&self, apparent_value: U256) -> EvmResult<U256>;

    /// Whether the chain's balances can hold `amount`.
    fn holds_balance(&self, amount: u64) -> bool;
}

} // verus!
