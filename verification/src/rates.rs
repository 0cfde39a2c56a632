//! Interest-rate vocabulary: overnight reference rates, swap-rate curve rows,
//! and settlement-date calendars.
use vstd::prelude::*;

use crate::bond::DiscountFactor;
use crate::bond::Periodicity;
use crate::date::Date;
use crate::fp;
use crate::fp::f_abs;
use crate::fp::f_lt;
use crate::fp::f_sub;
use crate::fp::F_EPSILON;

verus! {

/// A daily reference rate: the Secured Overnight Financing Rate or the
/// Sterling Overnight Interbank Average.
#[derive(Debug, Clone, Copy, PartialEq, Eq, Structural)]
pub enum OvernightRateType {
    SOFR,
    SONIA,
}

/// The swap rate observed at a date for a term, used to compute spot rates,
/// discount factors and forward rates for a term structure. Rates and terms
/// are single-precision bits.
#[derive(Debug, Clone, Copy)]
pub struct SwapRate {
    pub date: Date,
    pub term: u32,
    pub rate: u32,
    pub swap_rate_type: OvernightRateType,
}

/// A settlement-calendar row: a start date, a term in years (single-precision
/// bits), and the next settlement date.
#[derive(Debug, Clone, Copy)]
pub struct NextSettlementDate {
    pub start_date: Date,
    pub term: u32,
    pub next_settlement_date: Date,
}

/// Settlement-date equality as the engine defines it: the start dates are
/// equal and the terms differ by more than the machine epsilon.
pub open spec fn spec_nsd_eq(a: NextSettlementDate, b: NextSettlementDate) -> bool {
    a.start_date == b.start_date && f_lt(F_EPSILON, f_abs(f_sub(a.term, b.term)))
}

impl PartialEq for NextSettlementDate {
    fn eq(&self, other: &Self) -> (r: bool) {
        self.start_date == other.start_date && fp::lt(
            F_EPSILON,
            fp::abs(fp::sub(self.term, other.term)),
        )
    }
}

impl vstd::std_specs::cmp::PartialEqSpecImpl for NextSettlementDate {
    open spec fn obeys_eq_spec() -> bool {
        true
    }

    open spec fn eq_spec(&self, other: &NextSettlementDate) -> bool {
        spec_nsd_eq(*self, *other)
    }
}

/// The position of the first group keyed equal to `e` at or past `k`, or a
/// negative position when none is.
pub open spec fn spec_find_group(
    groups: Seq<(NextSettlementDate, Seq<NextSettlementDate>)>,
    e: NextSettlementDate,
    k: int,
) -> int
    decreases groups.len() - k,
{
    if k < 0 || k >= groups.len() {
        -1
    } else if spec_nsd_eq(groups[k].0, e) {
        k
    } else {
        spec_find_group(groups, e, k + 1)
    }
}

/// The calendar's first `i` rows grouped by settlement-date equality, in
/// first-appearance order: a row joins the first group whose key equals it,
/// or opens a new group keyed by itself.
pub open spec fn spec_settlement_groups(cal: Seq<NextSettlementDate>, i: int) -> Seq<
    (NextSettlementDate, Seq<NextSettlementDate>),
>
    decreases i,
{
    if i <= 0 {
        Seq::empty()
    } else {
        let g = spec_settlement_groups(cal, i - 1);
        let e = cal[i - 1];
        let j = spec_find_group(g, e, 0);
        if j >= 0 {
            g.update(j, (g[j].0, g[j].1.push(e)))
        } else {
            g.push((e, seq![e]))
        }
    }
}

impl NextSettlementDate {
    /// Groups a settlement calendar by the type's own equality, in
    /// first-appearance order: each row joins the first group whose key it
    /// equals, or opens a new group. Each group lists its rows in calendar
    /// order.
    pub fn get_settlement_dates(&self, calendar: Vec<NextSettlementDate>) -> (r: Vec<
        (NextSettlementDate, Vec<NextSettlementDate>),
    >)
        ensures
            r@.len() == spec_settlement_groups(calendar@, calendar@.len() as int).len(),
            forall|k: int|
                0 <= k < r@.len() ==> (#[trigger] r@[k]).0 == spec_settlement_groups(
                    calendar@,
                    calendar@.len() as int,
                )[k].0 && r@[k].1@ == spec_settlement_groups(
                    calendar@,
                    calendar@.len() as int,
                )[k].1,
    {
        let n = calendar.len();
        let mut result: Vec<(NextSettlementDate, Vec<NextSettlementDate>)> = Vec::new();
        let mut i: usize = 0;
        while i < n
            invariant
                n == calendar@.len(),
                0 <= i <= n,
                result@.len() == spec_settlement_groups(calendar@, i as int).len(),
                forall|k: int|
                    0 <= k < result@.len() ==> (#[trigger] result@[k]).0 == spec_settlement_groups(
                        calendar@,
                        i as int,
                    )[k].0 && result@[k].1@ == spec_settlement_groups(calendar@, i as int)[k].1,
            decreases n - i,
        {
            let ghost g = spec_settlement_groups(calendar@, i as int);
            let next_date = calendar[i];
            let m = result.len();
            let mut j: usize = 0;
            let mut found: bool = false;
            while j < m && !found
                invariant
                    m == result@.len(),
                    m == g.len(),
                    0 <= j <= m,
                    forall|k: int|
                        0 <= k < result@.len() ==> (#[trigger] result@[k]).0 == g[k].0,
                    next_date == calendar@[i as int],
                    !found ==> spec_find_group(g, next_date, 0) == spec_find_group(
                        g,
                        next_date,
                        j as int,
                    ),
                    found ==> spec_find_group(g, next_date, 0) == j as int && j < m,
                decreases m - j, (if found {
                    0int
                } else {
                    1int
                }),
            {
                let key = result[j].0;
                if key.start_date == next_date.start_date && fp::lt(
                    F_EPSILON,
                    fp::abs(fp::sub(key.term, next_date.term)),
                ) {
                    found = true;
                } else {
                    j = j + 1;
                }
            }
            if found {
                let mut pair = result.remove(j);
                pair.1.push(next_date);
                result.insert(j, pair);
                proof {
                    let g2 = spec_settlement_groups(calendar@, i + 1);
                    assert(g2 =~= g.update(j as int, (g[j as int].0, g[j as int].1.push(
                        next_date,
                    ))));
                    assert(result@.len() == g2.len());
                }
            } else {
                let mut group: Vec<NextSettlementDate> = Vec::new();
                group.push(next_date);
                result.push((next_date, group));
                proof {
                    assert(spec_find_group(g, next_date, 0) == -1);
                    let g2 = spec_settlement_groups(calendar@, i + 1);
                    assert(g2 =~= g.push((next_date, seq![next_date])));
                }
            }
            i = i + 1;
        }
        result
    }
}

/// Approximate discount factors for spot rates. Not yet computed by the
/// engine: the result is always empty.
pub fn discount_factors(
    market_data: Vec<u32>,
    periodicity: Periodicity,
    number_of_days: u32,
    term: u32,
) -> (r: Vec<DiscountFactor>)
    ensures
        r@.len() == 0,
{
    Vec::new()
}

} // verus!
