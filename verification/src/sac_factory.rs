//! Token launchpad engine: overflow-safe arithmetic, the virtual-reserve
//! constant-product bonding curve, fee and lifecycle configuration types,
//! and the pure trade transforms behind launching, buying, selling and
//! graduating a token.

pub mod access_control;
pub mod bonding_curve;
pub mod engine;
pub mod errors;
pub mod fee_management;
pub mod laws;
pub mod math;
pub mod price_oracle;
pub mod state_management;
pub mod storage;
