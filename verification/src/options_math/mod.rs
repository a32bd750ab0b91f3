//! Option arithmetic: moneyness classes and time to expiry.

pub mod bsm;
pub mod moneyness;
