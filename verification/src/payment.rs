//! The kinds of payments beyond plain debt.
use vstd::prelude::*;

verus! {

/// Preferred stock: a class of stock whose dividends are a specified
/// percentage of par, sharing characteristics of a common stock and a bond.
/// A marker shape; no valuation is defined for it here.
pub struct PreferredStock {}

} // verus!
