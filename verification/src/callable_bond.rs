//! Callable bonds: an issuer may repurchase the debt at given prices between
//! given dates. A data shape only — no pricing algorithm exists for the
//! embedded option.
use vstd::prelude::*;

use crate::bond::Bond;
use crate::date::Date;

verus! {

/// A bond together with its call schedule.
#[derive(Debug, Clone)]
pub struct CallableBond {
    pub underlying: Bond,
    pub callable_structure: Vec<CallPrice>,
}

impl PartialEq for CallableBond {
    /// Callable bonds compare by their underlying bond (which itself
    /// compares by dates alone).
    fn eq(&self, other: &CallableBond) -> (r: bool) {
        self.underlying == other.underlying
    }
}

impl vstd::std_specs::cmp::PartialEqSpecImpl for CallableBond {
    open spec fn obeys_eq_spec() -> bool {
        true
    }

    open spec fn eq_spec(&self, other: &CallableBond) -> bool {
        self.underlying.maturity_date == other.underlying.maturity_date
            && self.underlying.issue_date == other.underlying.issue_date
    }
}

/// One entry of a call schedule: the window in which the issuer may call,
/// and the call price (single-precision bits).
#[derive(Debug, Clone, Copy)]
pub struct CallPrice {
    pub call_start: Date,
    pub call_end: Date,
    pub call_price: u32,
}

} // verus!
