//! Verified core of the moonrabbit relay-chain node: the adder test
//! parachain's state transition, the doubly encoded XCM payload, the
//! identity pallet's weight formulas, the network bridge's validator
//! discovery bookkeeping and a few runtime and CLI decisions.

pub mod scale;
pub mod adder;
pub mod validator_discovery;
pub mod double_encoded;
pub mod cli;
pub mod keys;
pub mod chain_spec;
pub mod identity_weights;
pub mod errors;
pub mod parachains;
pub mod pvf;
pub mod network_bridge_event;
pub mod dispatch_gen;
pub mod xcm_assets;
