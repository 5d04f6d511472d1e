//! Pricing and liquidity accounting for a two-asset constant-product pool.
//!
//! Every function is a pure computation on explicit inputs: reserves, deposits,
//! fee rates and guard parameters go in, exact amounts or a typed failure come
//! out. Reserve-scale arithmetic runs on 256-bit integers and never wraps.

pub mod asset;
pub mod contract;
pub mod decimal;
pub mod error;
pub mod guard;
pub mod liquidity;
pub mod msg;
pub mod obfuscation;
pub mod swap;
pub mod wide;
