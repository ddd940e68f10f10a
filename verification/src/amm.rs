//! Constant-product automated market maker: pricing formulas, input
//! validation, the K-invariant check, the pair state transforms and the
//! time-weighted average price oracle.

pub mod errors;
pub mod laws;
pub mod math;
pub mod math_v2;
pub mod oracle;
pub mod pair;
pub mod validation;
