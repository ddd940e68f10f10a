//! Pricing and settlement engine for two pooled-liquidity models: a
//! constant-product automated market maker and a virtual-reserve bonding
//! curve, together with the invariant / slippage validator and a
//! time-weighted average price oracle.
//!
//! Every function here is a pure transform from an explicit numeric state
//! snapshot and the trade inputs to a new snapshot or a typed error. Storage,
//! authorization, token transfers and event emission belong to the dispatch
//! layer around this crate.

pub mod amm;
pub mod sac_factory;
pub mod token_factory;
