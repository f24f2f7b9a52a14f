//! A trait that only this crate can implement, which closes `DecimalInteger`
//! to the integer types whose impls are proved here.

use vstd::prelude::*;

verus! {

/// Implemented for the primitive integer types of at most 64 bits.
pub trait Sealed {}

impl Sealed for i8 {}

impl Sealed for i16 {}

impl Sealed for i32 {}

impl Sealed for i64 {}

impl Sealed for isize {}

impl Sealed for u8 {}

impl Sealed for u16 {}

impl Sealed for u32 {}

impl Sealed for u64 {}

impl Sealed for usize {}

} // verus!
