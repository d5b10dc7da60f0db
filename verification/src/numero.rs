//! Decimal quantities (prices, weights, rounding policies) that the library
//! stores and hands back without computing with them.
use vstd::prelude::*;

verus! {

/// A decimal quantity, held as the IEEE-754 bit pattern of the double that
/// the application reads and shows. The library only stores, copies and
/// compares such values for identity; arithmetic on them is the
/// application's. Zero is the pattern of all zero bits.
#[derive(Clone, Copy, Debug, PartialEq, Eq, Structural, Default)]
pub struct Decimal {
    pub bits: u64,
}

impl Decimal {
    /// The quantity zero.
    pub fn cero() -> (r: Decimal)
        ensures
            r.bits == 0,
    {
        Decimal { bits: 0 }
    }
}

} // verus!
