//! Overnight-rate interest-rate swaps: the floating leg compounds a time
//! series of daily overnight rates geometrically, the fixed leg accrues under
//! the swap's day-count convention, and the swap's value is their difference.
use vstd::prelude::*;

use crate::date::Date;
use crate::date::spec_date_lt;
use crate::fp;
use crate::fp::f_abs;
use crate::fp::f_add;
use crate::fp::f_div;
use crate::fp::f_lt;
use crate::fp::f_mul;
use crate::fp::f_sub;
use crate::fp::F_EPSILON;
use crate::fp::F_HUNDRED;
use crate::fp::F_ONE;
use crate::fp::F_ZERO;
use crate::fp::F_360;
use crate::fp::F_365;
use crate::rates::OvernightRateType;

verus! {

/// The day-count convention of a swap's accrual: a 360- or a 365-day year.
#[derive(Debug, Clone, Copy, PartialEq, Eq, Structural)]
pub enum AccountingConvention {
    AC360,
    AC365,
}

/// An interest-rate swap: a face value, a fixed rate in percentage points,
/// the overnight rate it floats against, a time in years, and a day-count
/// convention. Amounts and rates are single-precision bits.
#[derive(Debug)]
pub struct IRS {
    pub face_value: u32,
    pub fixed_rate: u32,
    pub overnight_rate_type: OvernightRateType,
    pub time: u32,
    pub accounting_convention: AccountingConvention,
}

/// One daily observation of an overnight rate, single-precision bits.
#[derive(Debug, Clone, Copy)]
pub struct InterestRateData {
    pub time: Date,
    pub rate: u32,
    pub overnight_rate_type: OvernightRateType,
}

impl PartialEq for InterestRateData {
    /// Observations compare by date alone.
    fn eq(&self, other: &Self) -> (r: bool) {
        self.time == other.time
    }
}

impl vstd::std_specs::cmp::PartialEqSpecImpl for InterestRateData {
    open spec fn obeys_eq_spec() -> bool {
        true
    }

    open spec fn eq_spec(&self, other: &InterestRateData) -> bool {
        self.time == other.time
    }
}

impl PartialOrd for InterestRateData {
    /// Observations order by date.
    fn partial_cmp(&self, other: &Self) -> (r: Option<core::cmp::Ordering>) {
        if self.time == other.time {
            Some(core::cmp::Ordering::Equal)
        } else if self.time.lt(other.time) {
            Some(core::cmp::Ordering::Less)
        } else {
            Some(core::cmp::Ordering::Greater)
        }
    }
}

impl vstd::std_specs::cmp::PartialOrdSpecImpl for InterestRateData {
    open spec fn obeys_partial_cmp_spec() -> bool {
        true
    }

    open spec fn partial_cmp_spec(&self, other: &InterestRateData) -> Option<core::cmp::Ordering> {
        if self.time == other.time {
            Some(core::cmp::Ordering::Equal)
        } else if spec_date_lt(self.time, other.time) {
            Some(core::cmp::Ordering::Less)
        } else {
            Some(core::cmp::Ordering::Greater)
        }
    }
}

/// Pricing fails when an observation's rate type differs from the swap's:
/// such a mismatch means the caller's data is corrupt, not a business case.
#[derive(Debug, Clone, Copy, PartialEq, Eq, Structural)]
pub enum SwapPricingError {
    RateTypeMismatch,
}

/// The bits of the days in one year under a convention.
pub open spec fn spec_days_in_year_f(c: AccountingConvention) -> u32 {
    match c {
        AccountingConvention::AC360 => F_360,
        AccountingConvention::AC365 => F_365,
    }
}

/// Whether some observation's rate type differs from the swap's.
pub open spec fn spec_rate_type_mismatch(irs: IRS, obs: Seq<InterestRateData>) -> bool {
    exists|k: int|
        0 <= k < obs.len() && (#[trigger] obs[k]).overnight_rate_type != irs.overnight_rate_type
}

/// The geometric compounding of the observations: starting from one, each
/// observation multiplies the product by one plus its daily rate over the
/// day-count base times one hundred.
pub open spec fn spec_compound_accum(diy: u32, obs: Seq<InterestRateData>, i: int, acc: u32) -> u32
    decreases obs.len() - i,
{
    if i < 0 || i >= obs.len() {
        acc
    } else {
        spec_compound_accum(
            diy,
            obs,
            i + 1,
            f_mul(acc, f_add(F_ONE, f_div(obs[i].rate, f_mul(diy, F_HUNDRED)))),
        )
    }
}

/// The floating-side accumulator of [`price_irs_at`]: an accumulator within
/// one machine epsilon of zero restarts at the face value times the daily
/// rate over the day-count base; otherwise it compounds geometrically.
pub open spec fn spec_variable_accum(
    fv: u32,
    diy: u32,
    obs: Seq<InterestRateData>,
    i: int,
    acc: u32,
) -> u32
    decreases obs.len() - i,
{
    if i < 0 || i >= obs.len() {
        acc
    } else {
        let acc2 = if f_lt(f_abs(f_sub(acc, F_ZERO)), F_EPSILON) {
            f_mul(fv, f_div(obs[i].rate, f_mul(diy, F_HUNDRED)))
        } else {
            f_mul(acc, f_add(F_ONE, f_div(obs[i].rate, f_mul(diy, F_HUNDRED))))
        };
        spec_variable_accum(fv, diy, obs, i + 1, acc2)
    }
}

/// The swap value [`price_irs`] computes: the compounded floating accrual
/// less the face value, minus the convention's fixed leg over `days`.
pub open spec fn spec_price_irs(irs: IRS, obs: Seq<InterestRateData>, days: u32) -> u32 {
    let diy = spec_days_in_year_f(irs.accounting_convention);
    let floating = f_sub(
        f_mul(irs.face_value, spec_compound_accum(diy, obs, 0, F_ONE)),
        irs.face_value,
    );
    let fixed = match irs.accounting_convention {
        AccountingConvention::AC360 => f_div(
            f_mul(f_mul(irs.face_value, f_div(irs.fixed_rate, F_HUNDRED)), days),
            F_360,
        ),
        AccountingConvention::AC365 => f_mul(
            irs.face_value,
            f_add(F_ONE, f_div(f_mul(f_div(irs.fixed_rate, F_HUNDRED), days), F_365)),
        ),
    };
    f_sub(floating, fixed)
}

/// The swap value [`price_irs_at`] computes, with its historical leg shapes:
/// under `AC360` the fixed leg is netted of the face value and the floating
/// side is the raw restarting accumulator; under `AC365` the fixed leg is
/// gross and the floating side is the face value times the accumulator, less
/// the face value.
pub open spec fn spec_price_irs_at(irs: IRS, obs: Seq<InterestRateData>, days: u32) -> u32 {
    let diy = spec_days_in_year_f(irs.accounting_convention);
    match irs.accounting_convention {
        AccountingConvention::AC360 => {
            let fixed = f_sub(
                f_mul(
                    irs.face_value,
                    f_add(F_ONE, f_div(f_mul(f_div(irs.fixed_rate, F_HUNDRED), days), F_360)),
                ),
                irs.face_value,
            );
            let variable = spec_variable_accum(irs.face_value, diy, obs, 0, F_ZERO);
            f_sub(variable, fixed)
        },
        AccountingConvention::AC365 => {
            let fixed = f_mul(
                irs.face_value,
                f_add(F_ONE, f_div(f_mul(f_div(irs.fixed_rate, F_HUNDRED), days), F_365)),
            );
            let variable = f_sub(
                f_mul(irs.face_value, spec_variable_accum(irs.face_value, diy, obs, 0, F_ZERO)),
                irs.face_value,
            );
            f_sub(variable, fixed)
        },
    }
}

/// The days in one year under the swap's convention, single-precision bits.
fn days_in_year_f(irs: &IRS) -> (r: u32)
    ensures
        r == spec_days_in_year_f(irs.accounting_convention),
{
    match irs.accounting_convention {
        AccountingConvention::AC360 => F_360,
        AccountingConvention::AC365 => F_365,
    }
}

/// Prices a swap after `days` of elapsed accrual (single-precision bits): the
/// floating leg compounds every observation geometrically over the face
/// value, the fixed leg accrues at the fixed rate under the convention, and
/// the value is floating less fixed. Fails exactly when some observation's
/// rate type differs from the swap's.
pub fn price_irs(irs: &IRS, overnight_data: &Vec<InterestRateData>, days: u32) -> (r: Result<
    u32,
    SwapPricingError,
>)
    ensures
        r is Err <==> spec_rate_type_mismatch(*irs, overnight_data@),
        r is Ok ==> r->Ok_0 == spec_price_irs(*irs, overnight_data@, days),
{
    let diy = days_in_year_f(irs);
    let n = overnight_data.len();
    let mut prod = F_ONE;
    let mut i: usize = 0;
    while i < n
        invariant
            n == overnight_data@.len(),
            diy == spec_days_in_year_f(irs.accounting_convention),
            0 <= i <= n,
            forall|k: int|
                0 <= k < i ==> (#[trigger] overnight_data@[k]).overnight_rate_type
                    == irs.overnight_rate_type,
            spec_compound_accum(diy, overnight_data@, 0, F_ONE) == spec_compound_accum(
                diy,
                overnight_data@,
                i as int,
                prod,
            ),
        decreases n - i,
    {
        let ob = &overnight_data[i];
        if !rate_type_eq(irs.overnight_rate_type, ob.overnight_rate_type) {
            return Err(SwapPricingError::RateTypeMismatch);
        }
        prod = fp::mul(prod, fp::add(F_ONE, fp::div(ob.rate, fp::mul(diy, F_HUNDRED))));
        i = i + 1;
    }
    let floating = fp::sub(fp::mul(irs.face_value, prod), irs.face_value);
    let fixed = match irs.accounting_convention {
        AccountingConvention::AC360 => fp::div(
            fp::mul(fp::mul(irs.face_value, fp::div(irs.fixed_rate, F_HUNDRED)), days),
            F_360,
        ),
        AccountingConvention::AC365 => fp::mul(
            irs.face_value,
            fp::add(F_ONE, fp::div(fp::mul(fp::div(irs.fixed_rate, F_HUNDRED), days), F_365)),
        ),
    };
    Ok(fp::sub(floating, fixed))
}

/// The floating side of [`price_irs_at`]: the restarting geometric
/// accumulator over all observations. Fails exactly when some observation's
/// rate type differs from the swap's.
fn compute_variable_side(irs: &IRS, overnight_data: &Vec<InterestRateData>) -> (r: Result<
    u32,
    SwapPricingError,
>)
    ensures
        r is Err <==> spec_rate_type_mismatch(*irs, overnight_data@),
        r is Ok ==> r->Ok_0 == spec_variable_accum(
            irs.face_value,
            spec_days_in_year_f(irs.accounting_convention),
            overnight_data@,
            0,
            F_ZERO,
        ),
{
    let diy = days_in_year_f(irs);
    let n = overnight_data.len();
    let mut result = F_ZERO;
    let mut i: usize = 0;
    while i < n
        invariant
            n == overnight_data@.len(),
            diy == spec_days_in_year_f(irs.accounting_convention),
            0 <= i <= n,
            forall|k: int|
                0 <= k < i ==> (#[trigger] overnight_data@[k]).overnight_rate_type
                    == irs.overnight_rate_type,
            spec_variable_accum(irs.face_value, diy, overnight_data@, 0, F_ZERO)
                == spec_variable_accum(irs.face_value, diy, overnight_data@, i as int, result),
        decreases n - i,
    {
        let ob = &overnight_data[i];
        if !rate_type_eq(irs.overnight_rate_type, ob.overnight_rate_type) {
            return Err(SwapPricingError::RateTypeMismatch);
        }
        if fp::lt(fp::abs(fp::sub(result, F_ZERO)), F_EPSILON) {
            result = fp::mul(irs.face_value, fp::div(ob.rate, fp::mul(diy, F_HUNDRED)));
        } else {
            result = fp::mul(result, fp::add(F_ONE, fp::div(ob.rate, fp::mul(diy, F_HUNDRED))));
        }
        i = i + 1;
    }
    Ok(result)
}

/// Prices a swap after `days` of elapsed accrual with the restarting floating
/// accumulator and the historical per-convention leg shapes. Fails exactly
/// when some observation's rate type differs from the swap's.
pub fn price_irs_at(irs: &IRS, overnight_data: &Vec<InterestRateData>, days: u32) -> (r: Result<
    u32,
    SwapPricingError,
>)
    ensures
        r is Err <==> spec_rate_type_mismatch(*irs, overnight_data@),
        r is Ok ==> r->Ok_0 == spec_price_irs_at(*irs, overnight_data@, days),
{
    match irs.accounting_convention {
        AccountingConvention::AC360 => {
            let fixed_side = fp::sub(
                fp::mul(
                    irs.face_value,
                    fp::add(
                        F_ONE,
                        fp::div(fp::mul(fp::div(irs.fixed_rate, F_HUNDRED), days), F_360),
                    ),
                ),
                irs.face_value,
            );
            match compute_variable_side(irs, overnight_data) {
                Ok(variable_side) => Ok(fp::sub(variable_side, fixed_side)),
                Err(e) => Err(e),
            }
        },
        AccountingConvention::AC365 => {
            let fixed_side = fp::mul(
                irs.face_value,
                fp::add(F_ONE, fp::div(fp::mul(fp::div(irs.fixed_rate, F_HUNDRED), days), F_365)),
            );
            match compute_variable_side(irs, overnight_data) {
                Ok(v) => {
                    let variable_side = fp::sub(fp::mul(irs.face_value, v), irs.face_value);
                    Ok(fp::sub(variable_side, fixed_side))
                },
                Err(e) => Err(e),
            }
        },
    }
}

/// Whether two overnight-rate types are the same.
fn rate_type_eq(a: OvernightRateType, b: OvernightRateType) -> (r: bool)
    ensures
        r == (a == b),
{
    match (a, b) {
        (OvernightRateType::SOFR, OvernightRateType::SOFR) => true,
        (OvernightRateType::SONIA, OvernightRateType::SONIA) => true,
        _ => false,
    }
}

} // verus!
