//! Treasury bills: short-dated securities priced by a simple discount-rate
//! formula over a 360-day year.
use vstd::prelude::*;

use crate::date::Date;
use crate::date::spec_date_lt;
use crate::fp;
use crate::fp::f_div;
use crate::fp::f_mul;
use crate::fp::f_sub;
use crate::fp::F_HUNDRED;
use crate::fp::F_ONE;
use crate::fp::F_SEVEN;
use crate::fp::F_THIRTY;
use crate::fp::F_360;

verus! {

/// The unit a bill's `time` field is quoted in.
#[derive(Debug, Clone, Copy)]
pub enum TimeIntervalType {
    Days,
    Weeks,
    Months,
}

/// A treasury bill: issue and maturity dates, a face value, a discount rate
/// in percentage points, and a time quoted in the given unit. Amounts and
/// rates are single-precision bits.
#[derive(Debug)]
pub struct TBills {
    pub issue_date: Date,
    pub face_value: u32,
    pub time_interval_type: TimeIntervalType,
    pub discount_rate: u32,
    pub time: u32,
    pub maturity_date: Date,
}

/// The bill's time normalized to days: days as given, weeks times seven,
/// months times thirty.
pub open spec fn spec_normalize_days(b: TBills) -> u32 {
    match b.time_interval_type {
        TimeIntervalType::Days => b.time,
        TimeIntervalType::Weeks => f_mul(b.time, F_SEVEN),
        TimeIntervalType::Months => f_mul(b.time, F_THIRTY),
    }
}

/// The discounted price of a bill: the face value times one minus the
/// normalized days times the discount rate over a year of 360 days of 100
/// percentage points.
pub open spec fn spec_valuation(b: TBills) -> u32 {
    f_mul(
        b.face_value,
        f_sub(F_ONE, f_mul(spec_normalize_days(b), f_div(b.discount_rate, f_mul(F_HUNDRED, F_360)))),
    )
}

impl TBills {
    /// The bill's time normalized to days.
    pub fn normalize_days(&self) -> (r: u32)
        ensures
            r == spec_normalize_days(*self),
    {
        match self.time_interval_type {
            TimeIntervalType::Weeks => fp::mul(self.time, F_SEVEN),
            TimeIntervalType::Days => self.time,
            TimeIntervalType::Months => fp::mul(self.time, F_THIRTY),
        }
    }

    /// Whether the bill's dates stand in order: maturity strictly after
    /// issue.
    pub fn is_time_valid(&self) -> (r: bool)
        ensures
            r == spec_date_lt(self.issue_date, self.maturity_date),
    {
        self.issue_date.lt(self.maturity_date)
    }

    /// The discounted price of the bill, or `None` when its dates are out of
    /// order.
    pub fn valuation(&self) -> (r: Option<u32>)
        ensures
            r is Some <==> spec_date_lt(self.issue_date, self.maturity_date),
            r is Some ==> r->Some_0 == spec_valuation(*self),
    {
        if self.is_time_valid() {
            Some(
                match self.time_interval_type {
                    TimeIntervalType::Weeks => fp::mul(
                        self.face_value,
                        fp::sub(
                            F_ONE,
                            fp::mul(
                                fp::mul(self.time, F_SEVEN),
                                fp::div(self.discount_rate, fp::mul(F_HUNDRED, F_360)),
                            ),
                        ),
                    ),
                    TimeIntervalType::Days => fp::mul(
                        self.face_value,
                        fp::sub(
                            F_ONE,
                            fp::mul(
                                self.time,
                                fp::div(self.discount_rate, fp::mul(F_HUNDRED, F_360)),
                            ),
                        ),
                    ),
                    TimeIntervalType::Months => fp::mul(
                        self.face_value,
                        fp::sub(
                            F_ONE,
                            fp::mul(
                                fp::mul(self.time, F_THIRTY),
                                fp::div(self.discount_rate, fp::mul(F_HUNDRED, F_360)),
                            ),
                        ),
                    ),
                },
            )
        } else {
            None
        }
    }
}

} // verus!
