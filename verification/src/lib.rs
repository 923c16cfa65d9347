//! Staking through the EVM: the rules of the staking precompiles, and the index that ties EVM
//! addresses to the neurons of a subnet.
//!
//! The crate computes. It reads chain state through the [`precompile::runtime::Runtime`] trait or
//! from its own tables, and it answers with values: a number to return, a failure, or the runtime call that the
//! caller wants dispatched. Reaching the chain's storage, dispatching, and the Solidity encoding
//! are left to whoever embeds it.
pub mod evm;
pub mod precompile;
pub mod primitives;
pub mod selection;
pub mod storage_table;
pub mod table_laws;
pub mod u256;
