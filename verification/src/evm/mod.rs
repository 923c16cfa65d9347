//! Which EVM address stands for which neuron of a subnet.
pub mod bucket;
pub mod bucket_laws;
pub mod error;
pub mod index;
pub mod laws;
pub mod migration;
pub mod operation_laws;
pub mod pallet;
pub mod signature;
pub mod signature_laws;
