//! The staking precompiles.
pub mod accounting;
pub mod allowance_laws;
pub mod allowances;
pub mod call;
pub mod convert;
pub mod costs;
pub mod dispatch_laws;
pub mod failure;
pub mod handle;
pub mod laws;
pub mod lists;
pub mod lock_laws;
pub mod locks;
pub mod older_laws;
pub mod parts_laws;
pub mod runtime;
pub mod stake_laws;
pub mod staking_v1;
pub mod staking_v2;
pub mod view_laws;
