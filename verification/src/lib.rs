//! Transaction-execution and state-commitment core of a layer-2 rollup.
//!
//! The crate models the authoritative account ledger, the operation handler
//! for NFT minting, the fixed-width pubdata codec shared with the base-chain
//! verifier, the versioned commit/verify state store, and the mempool
//! consistency gate.

pub mod account;
pub mod api;
pub mod assoc;
pub mod bytes;
pub mod errors;
pub mod fee;
pub mod fee_source;
pub mod hexutil;
pub mod keccak;
pub mod laws;
pub mod mempool;
pub mod msg;
pub mod op;
pub mod params;
pub mod scenario;
pub mod state;
pub mod store;
pub mod tx;
pub mod types;
pub mod update;
