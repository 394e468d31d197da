//! Constant-product bonding curve: pricing math and the per-token curve
//! lifecycle (create, buy, sell, graduate).
//!
//! The curve sells a token against a pool of virtual reserves; the price
//! rises with cumulative purchases, and trading halts once the curve has
//! raised a configured amount of real SOL ("graduation"). All settlement
//! arithmetic is integer-only; the surrounding runtime is expected to
//! execute the fund movements that a successful transition reports.

pub mod curve;
pub mod lifecycle;
