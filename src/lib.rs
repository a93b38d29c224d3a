//! Stable-pool invariant math, subpool migration and cross-pool trade
//! resolution between a hub pool and stable subpools.
pub mod math;
pub mod stableswap;
pub mod amplification;
pub mod types;
pub mod subpools;
pub mod engine;
pub mod dca;
pub mod ledger;
pub mod liquidity;
