//! Fixed-scale monetary amounts backed by a 128-bit decimal.
//!
//! An [`amount::Amount`] carries a compile-time number of fractional digits
//! (its scale) over an exact decimal value. Arithmetic is delegated to the
//! `fastnum` decimal type; every operation states, over the mathematical value
//! of its operands, what it returns.

pub mod decimal;
pub mod backend;
pub mod amount;
pub mod converter;
pub mod formatter;
pub mod totals;
pub mod sample_data;
pub mod laws;
