//! What the views charge for.
use vstd::prelude::*;

verus! {

/// The reads for one stake: two for the first look at the shares, and five more for value, share
/// and denominator where the newer table is fallen back on.
pub const STAKE_INFO_READS_PER_HOTKEY: u64 = 7;

/// The gas for taking in and checking one hotkey of a list.
pub const STAKE_INFO_INPUT_GAS_PER_HOTKEY: u64 = 64;

/// The most hotkeys in one request for stake.
pub const MAX_STAKE_INFO_HOTKEYS: usize = 64;

/// The most hotkeys in one request for conviction.
pub const MAX_CONVICTION_HOTKEYS: usize = 64;

/// The most hotkeys in one request for unclaimed root emission.
pub const MAX_UNCLAIMED_ROOT_HOTKEYS: usize = 64;

/// The most hotkeys on one page.
pub const MAX_STAKING_HOTKEYS_PAGE_SIZE: u16 = 64;

/// The reads for one coldkey's lock: its row, its mode, the owner hotkey, two rates and the block.
pub const COLDKEY_LOCK_READS: u64 = 6;

/// The reads for the locks on one hotkey: the owner hotkey, two rates, the block and four buckets.
pub const HOTKEY_LOCK_READS: u64 = 8;

/// The reads for one subnet in the total over a hotkey: its stake, and four for the price.
pub const TOTAL_HOTKEY_STAKE_READS_PER_SUBNET: u64 = 5;

/// The reads for one position in the total over a coldkey: once to count it, once to add it.
pub const TOTAL_COLDKEY_POSITION_BASE_READS: u64 = 2;

/// The further reads for a position that is counted in: its stake, a simulated swap and the price.
pub const TOTAL_COLDKEY_MATCHED_POSITION_READS: u64 = STAKE_INFO_READS_PER_HOTKEY + 9 + 4;

/// The reads for what one validator's basket owes on one subnet.
pub const ROOT_UNCLAIMED_READS_PER_HOTKEY: u64 = 20;

} // verus!
