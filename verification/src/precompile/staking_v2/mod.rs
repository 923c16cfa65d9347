//! The staking precompile. Amounts are in native units.
use crate::precompile::allowances::{AllowancesStorage, Grants};
use crate::precompile::runtime::Runtime;
use vstd::prelude::*;

pub mod approvals;
pub mod lock_views;
pub mod setting_calls;
pub mod stake_calls;
pub mod stake_views;
pub mod state_views;

verus! {

/// The staking precompile, over the chain that it stands on and the allowances that it stores.
pub struct StakingPrecompileV2<R: Runtime> {
    pub runtime: R,
    pub allowances: AllowancesStorage,
}

impl<R: Runtime> StakingPrecompileV2<R> {
    /// The number that the precompile's address is made of.
    pub const INDEX: u64 = 2053;

    /// The precompile with no allowances.
    pub fn new(runtime: R) -> (precompile: StakingPrecompileV2<R>)
        ensures
            precompile.runtime == runtime,
            precompile.allowances@ == Grants::empty(),
    {
        let allowances = AllowancesStorage::new();
        StakingPrecompileV2 { runtime, allowances }
    }
}

} // verus!
