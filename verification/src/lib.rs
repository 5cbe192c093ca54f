//! Settlement core of a cross-chain token bridge, for the path where the asset
//! is native to the local chain and held in escrow.
//!
//! Two mechanisms are verified here: a replay guard that turns a write-once
//! storage cell into an at-most-once execution guard, and settlement
//! arithmetic that denormalizes a cross-chain fixed-point amount to the local
//! asset's native precision and splits an optional relayer incentive out of
//! the escrowed balance. The host ledger's collaborators (account creation and
//! value transfer) are driven by the caller with the plan this library
//! computes.

pub mod amounts;
pub mod bytes;
pub mod derivation;
pub mod errors;
pub mod guard;
pub mod messages;
pub mod registry;
pub mod settle;
