//! Decimal text of an integer, held inline and borrowed as a one-component
//! path, for building paths such as `/proc/self/fd/<fd>` without allocating.

pub mod dec_int;
pub mod decimal;
mod sealed;

pub use dec_int::{DecInt, DecimalInteger};
