//! Token factory engine: input validation, the quadratic bonding curve, the
//! multi-shape bonding curve with its sell penalty, and the pure trade
//! transforms behind creating, buying and selling factory tokens.

pub mod bonding_curve;
pub mod bonding_curve_v2;
pub mod engine;
pub mod errors;
pub mod validation;
