//! Bonds: contractual terms, payment schedules, cashflows, yields, and the
//! discount-factor bootstrap.
//!
//! Monetary amounts and rates are single-precision values carried as raw bits
//! (`u32`); the arithmetic on them goes through [`crate::fp`], and every
//! contract states the exact sequence of operations performed, so that the
//! order- and boundary-sensitive recurrences are pinned down completely.
use vstd::prelude::*;

use crate::date::Date;
use crate::date::date_ord;
use crate::date::lemma_date_lt_ord;
use crate::date::spec_add_months;
use crate::date::spec_date_le;
use crate::date::spec_date_lt;
use crate::date::spec_parse_date;
use crate::date::parse_date;
use crate::fp;
use crate::fp::f_abs;
use crate::fp::f_add;
use crate::fp::f_div;
use crate::fp::f_exp;
use crate::fp::f_ln;
use crate::fp::f_lt;
use crate::fp::f_mul;
use crate::fp::f_of_u32;
use crate::fp::f_powf;
use crate::fp::f_sub;
use crate::fp::F_EPSILON;
use crate::fp::F_FOUR;
use crate::fp::F_HUNDRED;
use crate::fp::F_ONE;
use crate::fp::F_SIX;
use crate::fp::F_THREE;
use crate::fp::F_TWELVE;
use crate::fp::F_TWO;
use crate::fp::F_ZERO;
use vstd::string::StrSliceExecFns;

verus! {

/// The coupon payment frequency of a product.
#[derive(Debug, Clone, Copy, PartialEq, Eq, Structural)]
pub enum Periodicity {
    Quarterly,
    SemiAnnual,
    Annual,
}

/// One observed row of a price curve: a coupon rate, a term in years, and the
/// market price, all single-precision bits.
#[derive(Debug, Clone, Copy)]
pub struct MarketData {
    pub coupon_rate: u32,
    pub term: u32,
    pub market_price: u32,
}

/// The present value of one currency unit at the end of a term, both fields
/// single-precision bits.
#[derive(Debug, Clone, Copy)]
pub struct DiscountFactor {
    pub term: u32,
    pub discount: u32,
}

/// One-factor interest-rate sensitivity metrics, single-precision bits.
#[derive(Debug, Clone, Copy)]
pub struct BondMetrics {
    pub dv01: u32,
    pub convexity: u32,
    pub duration: u32,
}

/// The ways constructing a bond can fail.
#[derive(Debug, Clone, Copy, PartialEq, Eq, Structural)]
pub enum ErrorType {
    InvalidDate,
    InvalidRate,
    InvalidPrincipal,
}

/// A construction failure, with a human-readable message.
#[derive(Debug, Clone, Copy)]
pub struct BondError {
    pub message: &'static str,
    pub message_code: ErrorType,
}

/// A bond: principal (face value), issue and maturity dates, an annualized
/// coupon rate, a payment periodicity, and an optional reinvestment rate.
/// Amounts and rates are single-precision bits. The dates of a meaningful
/// bond satisfy [`Bond::wf`]: the validating factories establish it.
#[derive(Debug, Clone, Copy)]
pub struct Bond {
    pub principal: u32,
    pub issue_date: Date,
    pub maturity_date: Date,
    pub coupon_rate: u32,
    pub periodicity: Periodicity,
    pub reinvestment_interest: Option<u32>,
}

/// A single payment of a bond: the paying bond, the payment date, and the
/// amount in single-precision bits.
#[derive(Debug, Clone, Copy)]
pub struct CashFlow {
    pub bond: Bond,
    pub time: Date,
    pub amount: u32,
}

impl PartialEq for CashFlow {
    /// Cashflow equality as the engine defines it: the times are equal and
    /// the amounts differ by more than the machine epsilon.
    fn eq(&self, other: &Self) -> (r: bool) {
        self.time == other.time && fp::lt(F_EPSILON, fp::abs(fp::sub(self.amount, other.amount)))
    }
}

impl vstd::std_specs::cmp::PartialEqSpecImpl for CashFlow {
    open spec fn obeys_eq_spec() -> bool {
        true
    }

    open spec fn eq_spec(&self, other: &CashFlow) -> bool {
        self.time == other.time && f_lt(F_EPSILON, f_abs(f_sub(self.amount, other.amount)))
    }
}

impl PartialEq for Bond {
    /// Bonds compare by their dates alone: coupon and principal are not part
    /// of a bond's identity.
    fn eq(&self, other: &Self) -> (r: bool) {
        self.maturity_date == other.maturity_date && self.issue_date == other.issue_date
    }
}

impl vstd::std_specs::cmp::PartialEqSpecImpl for Bond {
    open spec fn obeys_eq_spec() -> bool {
        true
    }

    open spec fn eq_spec(&self, other: &Bond) -> bool {
        self.maturity_date == other.maturity_date && self.issue_date == other.issue_date
    }
}

impl PartialOrd for Bond {
    /// Bonds order by maturity date, then issue date.
    fn partial_cmp(&self, other: &Self) -> (r: Option<core::cmp::Ordering>) {
        if self.maturity_date == other.maturity_date {
            if self.issue_date == other.issue_date {
                Some(core::cmp::Ordering::Equal)
            } else if self.issue_date.lt(other.issue_date) {
                Some(core::cmp::Ordering::Less)
            } else {
                Some(core::cmp::Ordering::Greater)
            }
        } else if self.maturity_date.lt(other.maturity_date) {
            Some(core::cmp::Ordering::Less)
        } else {
            Some(core::cmp::Ordering::Greater)
        }
    }
}

impl vstd::std_specs::cmp::PartialOrdSpecImpl for Bond {
    open spec fn obeys_partial_cmp_spec() -> bool {
        true
    }

    open spec fn partial_cmp_spec(&self, other: &Bond) -> Option<core::cmp::Ordering> {
        if self.maturity_date == other.maturity_date {
            if self.issue_date == other.issue_date {
                Some(core::cmp::Ordering::Equal)
            } else if spec_date_lt(self.issue_date, other.issue_date) {
                Some(core::cmp::Ordering::Less)
            } else {
                Some(core::cmp::Ordering::Greater)
            }
        } else if spec_date_lt(self.maturity_date, other.maturity_date) {
            Some(core::cmp::Ordering::Less)
        } else {
            Some(core::cmp::Ordering::Greater)
        }
    }
}

impl PartialEq for DiscountFactor {
    /// Discount factors compare by term alone.
    fn eq(&self, other: &Self) -> (r: bool) {
        fp::eq(self.term, other.term)
    }
}

impl vstd::std_specs::cmp::PartialEqSpecImpl for DiscountFactor {
    open spec fn obeys_eq_spec() -> bool {
        true
    }

    open spec fn eq_spec(&self, other: &DiscountFactor) -> bool {
        fp::f_eq(self.term, other.term)
    }
}

impl PartialOrd for DiscountFactor {
    /// Discount factors order by term; terms within one machine epsilon of
    /// each other count as equal.
    fn partial_cmp(&self, other: &Self) -> (r: Option<core::cmp::Ordering>) {
        if fp::lt(self.term, other.term) {
            Some(core::cmp::Ordering::Less)
        } else if fp::lt(fp::abs(fp::sub(self.term, other.term)), F_EPSILON) {
            Some(core::cmp::Ordering::Equal)
        } else {
            Some(core::cmp::Ordering::Greater)
        }
    }
}

impl vstd::std_specs::cmp::PartialOrdSpecImpl for DiscountFactor {
    open spec fn obeys_partial_cmp_spec() -> bool {
        true
    }

    open spec fn partial_cmp_spec(&self, other: &DiscountFactor) -> Option<core::cmp::Ordering> {
        if f_lt(self.term, other.term) {
            Some(core::cmp::Ordering::Less)
        } else if f_lt(f_abs(f_sub(self.term, other.term)), F_EPSILON) {
            Some(core::cmp::Ordering::Equal)
        } else {
            Some(core::cmp::Ordering::Greater)
        }
    }
}

/// The number of months in one payment period.
pub open spec fn spec_months_in_period(p: Periodicity) -> u32 {
    match p {
        Periodicity::Quarterly => 3,
        Periodicity::SemiAnnual => 6,
        Periodicity::Annual => 12,
    }
}

/// The bits of the number of months in one payment period as a
/// single-precision value.
pub open spec fn spec_months_f(p: Periodicity) -> u32 {
    match p {
        Periodicity::Quarterly => F_THREE,
        Periodicity::SemiAnnual => F_SIX,
        Periodicity::Annual => F_TWELVE,
    }
}

/// The bits of the number of payment periods per year as a single-precision
/// value.
pub open spec fn spec_periods_per_year_f(p: Periodicity) -> u32 {
    match p {
        Periodicity::Quarterly => F_FOUR,
        Periodicity::SemiAnnual => F_TWO,
        Periodicity::Annual => F_ONE,
    }
}

/// The `MM/DD/YYYY` format string, as the engine spells it.
pub open spec fn spec_mdy_format(f: Seq<char>) -> bool {
    f == seq!['%', 'm', '/', '%', 'd', '/', '%', 'Y']
}

/// Whether `f` is the `MM/DD/YYYY` format string. The engine parses dates in
/// this one explicit format; callers holding dates in another format convert
/// before calling in.
pub fn is_mdy_format(f: &str) -> (r: bool)
    ensures
        r == spec_mdy_format(f@),
{
    let r = f.unicode_len() == 8 && f.get_char(0) == '%' && f.get_char(1) == 'm' && f.get_char(2)
        == '/' && f.get_char(3) == '%' && f.get_char(4) == 'd' && f.get_char(5) == '/'
        && f.get_char(6) == '%' && f.get_char(7) == 'Y';
    proof {
        if r {
            assert(f@ =~= seq!['%', 'm', '/', '%', 'd', '/', '%', 'Y']);
        }
    }
    r
}

/// The payment dates and the contractual dates parse and stand in order.
pub open spec fn spec_bond_inputs_ok(issue: Seq<char>, maturity: Seq<char>, fmt: Seq<char>) -> bool {
    &&& spec_mdy_format(fmt)
    &&& spec_parse_date(issue) is Some
    &&& spec_parse_date(maturity) is Some
    &&& spec_date_lt(spec_parse_date(issue)->Some_0, spec_parse_date(maturity)->Some_0)
}

impl Bond {
    /// A meaningful bond: both dates are real calendar dates, the issue date
    /// falls strictly before the maturity date, and the maturity year is
    /// within the four-digit range the date format can denote.
    pub open spec fn wf(self) -> bool {
        &&& self.issue_date.valid()
        &&& self.maturity_date.valid()
        &&& spec_date_lt(self.issue_date, self.maturity_date)
        &&& self.maturity_date.year < 10_000
    }
}

/// Creates a bond with the given periodicity and reinvestment rate. Fails
/// with an `InvalidDate` error exactly when the format string is not
/// `%m/%d/%Y`, either date string does not parse, or the dates are out of
/// order (the issue date must fall strictly before maturity, the bond's
/// invariant).
pub fn create_bond_with_periodicity(
    principal: u32,
    issue_date: &str,
    maturity_date: &str,
    rate: u32,
    reinvestment_interest_rate: u32,
    periodicity: Periodicity,
    date_format: &str,
) -> (r: Result<Bond, BondError>)
    ensures
        r is Ok <==> spec_bond_inputs_ok(issue_date@, maturity_date@, date_format@),
        r is Ok ==> r->Ok_0 == (Bond {
            principal,
            issue_date: spec_parse_date(issue_date@)->Some_0,
            maturity_date: spec_parse_date(maturity_date@)->Some_0,
            coupon_rate: rate,
            periodicity,
            reinvestment_interest: Some(reinvestment_interest_rate),
        }),
        r is Ok ==> r->Ok_0.wf(),
        r is Err ==> r->Err_0.message_code == ErrorType::InvalidDate,
{
    if !is_mdy_format(date_format) {
        return Err(BondError { message: "Invalid Date", message_code: ErrorType::InvalidDate });
    }
    let i_date = parse_date(issue_date);
    let m_date = parse_date(maturity_date);
    match (i_date, m_date) {
        (Some(i), Some(m)) => {
            if i.lt(m) {
                Ok(
                    Bond {
                        principal,
                        issue_date: i,
                        maturity_date: m,
                        coupon_rate: rate,
                        periodicity,
                        reinvestment_interest: Some(reinvestment_interest_rate),
                    },
                )
            } else {
                Err(BondError { message: "Invalid Date", message_code: ErrorType::InvalidDate })
            }
        },
        _ => Err(BondError { message: "Invalid Date", message_code: ErrorType::InvalidDate }),
    }
}

/// Creates a bond with `SemiAnnual` periodicity and no reinvestment rate.
/// Fails with an `InvalidDate` error exactly when the format string is not
/// `%m/%d/%Y`, either date string does not parse, or the dates are out of
/// order.
pub fn create_bond(
    principal: u32,
    issue_date: &str,
    maturity_date: &str,
    rate: u32,
    date_format: &str,
) -> (r: Result<Bond, BondError>)
    ensures
        r is Ok <==> spec_bond_inputs_ok(issue_date@, maturity_date@, date_format@),
        r is Ok ==> r->Ok_0 == (Bond {
            principal,
            issue_date: spec_parse_date(issue_date@)->Some_0,
            maturity_date: spec_parse_date(maturity_date@)->Some_0,
            coupon_rate: rate,
            periodicity: Periodicity::SemiAnnual,
            reinvestment_interest: None,
        }),
        r is Ok ==> r->Ok_0.wf(),
        r is Err ==> r->Err_0.message_code == ErrorType::InvalidDate,
{
    if !is_mdy_format(date_format) {
        return Err(BondError { message: "Invalid date", message_code: ErrorType::InvalidDate });
    }
    let i_date = parse_date(issue_date);
    let m_date = parse_date(maturity_date);
    match (i_date, m_date) {
        (Some(i), Some(m)) => {
            if i.lt(m) {
                Ok(
                    Bond {
                        principal,
                        issue_date: i,
                        maturity_date: m,
                        coupon_rate: rate,
                        periodicity: Periodicity::SemiAnnual,
                        reinvestment_interest: None,
                    },
                )
            } else {
                Err(BondError { message: "Invalid date", message_code: ErrorType::InvalidDate })
            }
        },
        _ => Err(BondError { message: "Invalid date", message_code: ErrorType::InvalidDate }),
    }
}

/// The coupon paid each period: the principal times the coupon rate over the
/// number of periods per year.
pub open spec fn spec_coupon_payment(b: Bond) -> u32 {
    match b.periodicity {
        Periodicity::Quarterly => f_mul(b.principal, f_div(b.coupon_rate, F_FOUR)),
        Periodicity::SemiAnnual => f_mul(b.principal, f_div(b.coupon_rate, F_TWO)),
        Periodicity::Annual => f_mul(b.principal, b.coupon_rate),
    }
}

/// The amount one coupon payment earns when reinvested for one period at the
/// bond's reinvestment rate; zero when the bond has none.
pub open spec fn spec_reinvestment_amount(b: Bond) -> u32 {
    match b.reinvestment_interest {
        Some(v) => match b.periodicity {
            Periodicity::Quarterly => f_div(f_mul(spec_coupon_payment(b), v), F_FOUR),
            Periodicity::SemiAnnual => f_div(f_mul(spec_coupon_payment(b), v), F_TWO),
            Periodicity::Annual => f_mul(spec_coupon_payment(b), v),
        },
        None => F_ZERO,
    }
}

/// The payment dates following `st` up to and one step past `mat`: each date
/// steps `months` months from the one before it, and the walk stops with the
/// first date strictly past `mat`.
pub open spec fn spec_schedule_tail(st: Date, mat: Date, months: u32) -> Seq<Date>
    decreases (if spec_date_le(st, mat) {
        date_ord(mat) - date_ord(st) + 1int
    } else {
        0int
    })
        when st.valid() && mat.valid() && 1 <= months <= 12 && mat.year < 99_000 && st.year
            <= mat.year + 1
    via spec_schedule_tail_decreases
{
    if !spec_date_le(st, mat) {
        Seq::empty()
    } else {
        let nxt = spec_add_months(st, months as int);
        seq![nxt] + spec_schedule_tail(nxt, mat, months)
    }
}

#[via_fn]
proof fn spec_schedule_tail_decreases(st: Date, mat: Date, months: u32) {
    if spec_date_le(st, mat) {
        let nxt = spec_add_months(st, months as int);
        lemma_add_months_step(st, months);
        lemma_date_lt_ord(st, nxt);
        if spec_date_lt(nxt, mat) {
            lemma_date_lt_ord(nxt, mat);
        }
    }
}

/// Stepping a valid date forward by up to a year keeps it valid, moves it
/// strictly later, and raises the year by at most one.
proof fn lemma_add_months_step(d: Date, months: u32)
    requires
        d.valid(),
        d.year < 100_000,
        1 <= months <= 12,
    ensures
        spec_add_months(d, months as int).valid(),
        spec_date_lt(d, spec_add_months(d, months as int)),
        spec_add_months(d, months as int).year <= d.year + 1,
{
}

/// The full payment schedule of a bond: the issue date, then one date per
/// period, through the first date on or past maturity.
pub open spec fn spec_schedule(b: Bond) -> Seq<Date> {
    seq![b.issue_date] + spec_schedule_tail(
        b.issue_date,
        b.maturity_date,
        spec_months_in_period(b.periodicity),
    )
}

/// The cashflows of a bond: one per schedule date after the issue date, each
/// paying the periodic coupon, the last additionally repaying the principal.
pub open spec fn spec_cashflow(b: Bond) -> Seq<CashFlow> {
    let sch = spec_schedule(b);
    Seq::new(
        (sch.len() - 1) as nat,
        |i: int|
            CashFlow {
                bond: b,
                time: sch[i + 1],
                amount: if i + 1 == sch.len() - 1 {
                    f_add(b.principal, spec_coupon_payment(b))
                } else {
                    spec_coupon_payment(b)
                },
            },
    )
}

impl Bond {
    /// The coupon payment adjusted to the periodicity of the bond.
    pub fn coupon_payment(self) -> (r: u32)
        ensures
            r == spec_coupon_payment(self),
    {
        match self.periodicity {
            Periodicity::Quarterly => fp::mul(self.principal, fp::div(self.coupon_rate, F_FOUR)),
            Periodicity::SemiAnnual => fp::mul(self.principal, fp::div(self.coupon_rate, F_TWO)),
            Periodicity::Annual => fp::mul(self.principal, self.coupon_rate),
        }
    }

    /// Macaulay duration is not computed by this engine: the result is always
    /// `None`, a documented analytical gap.
    pub fn macaulay_duration(self) -> (r: Option<u32>)
        ensures
            r is None,
    {
        None
    }

    /// The amount one coupon payment earns when reinvested at the bond's
    /// reinvestment rate for one period.
    pub fn reinvestment_amount(self) -> (r: u32)
        ensures
            r == spec_reinvestment_amount(self),
    {
        match self.reinvestment_interest {
            Some(v) => match self.periodicity {
                Periodicity::Quarterly => fp::div(fp::mul(self.coupon_payment(), v), F_FOUR),
                Periodicity::SemiAnnual => fp::div(fp::mul(self.coupon_payment(), v), F_TWO),
                Periodicity::Annual => fp::mul(self.coupon_payment(), v),
            },
            None => F_ZERO,
        }
    }

    /// The number of months in one payment period.
    fn get_months(self) -> (r: u32)
        ensures
            r == spec_months_in_period(self.periodicity),
    {
        match self.periodicity {
            Periodicity::SemiAnnual => 6,
            Periodicity::Quarterly => 3,
            Periodicity::Annual => 12,
        }
    }

    /// The ordered payment schedule: the issue date first, then one date per
    /// period, through the first date on or past maturity.
    pub fn periodicity(self) -> (r: Vec<Date>)
        requires
            self.wf(),
        ensures
            r@ == spec_schedule(self),
    {
        let months = self.get_months();
        let mut result: Vec<Date> = Vec::new();
        let mut st = self.issue_date;
        result.push(st);
        while st.le(self.maturity_date)
            invariant
                self.wf(),
                months == spec_months_in_period(self.periodicity),
                st.valid(),
                st.year <= self.maturity_date.year + 1,
                spec_schedule(self) =~= result@ + spec_schedule_tail(
                    st,
                    self.maturity_date,
                    months,
                ),
            decreases (if spec_date_le(st, self.maturity_date) {
                date_ord(self.maturity_date) - date_ord(st) + 1int
            } else {
                0int
            }),
        {
            proof {
                lemma_add_months_step(st, months);
                lemma_date_lt_ord(st, spec_add_months(st, months as int));
                if spec_date_lt(spec_add_months(st, months as int), self.maturity_date) {
                    lemma_date_lt_ord(spec_add_months(st, months as int), self.maturity_date);
                }
            }
            st = st.add_months(months);
            result.push(st);
        }
        proof {
            assert(spec_schedule_tail(st, self.maturity_date, months) =~= Seq::<Date>::empty());
            assert(result@ =~= spec_schedule(self));
        }
        result
    }

    /// The cashflows of the bond: the periodic coupon at each schedule date
    /// after the issue date, with the principal added to the final payment.
    pub fn cashflow(self) -> (r: Vec<CashFlow>)
        requires
            self.wf(),
        ensures
            r@ == spec_cashflow(self),
            r@.len() + 1 == spec_schedule(self).len(),
    {
        let intervals: Vec<Date> = self.periodicity();
        let cp = self.coupon_payment();
        let mut result: Vec<CashFlow> = Vec::new();
        let n = intervals.len();
        let mut i: usize = 1;
        while i < n
            invariant
                self.wf(),
                n == intervals.len(),
                intervals@ == spec_schedule(self),
                cp == spec_coupon_payment(self),
                1 <= i <= n,
                n >= 1,
                result@ =~= spec_cashflow(self).take(i - 1),
            decreases n - i,
        {
            let amount = if i + 1 == n {
                fp::add(self.principal, cp)
            } else {
                cp
            };
            result.push(CashFlow { bond: self, time: intervals[i], amount });
            i = i + 1;
        }
        proof {
            assert(result@ =~= spec_cashflow(self));
        }
        result
    }
}

/// The schedule of a meaningful bond holds the issue date and at least one
/// payment date: one more entry than the cashflow sequence.
pub proof fn lemma_schedule_cashflow_len(b: Bond)
    requires
        b.wf(),
    ensures
        spec_schedule(b).len() == spec_cashflow(b).len() + 1,
        spec_schedule(b).len() >= 2,
{
    assert(spec_date_le(b.issue_date, b.maturity_date));
    assert(spec_schedule_tail(
        b.issue_date,
        b.maturity_date,
        spec_months_in_period(b.periodicity),
    ).len() >= 1);
}


/// Whether a cashflow falls in the open-left interval `(start, end]`: strictly
/// after `start`, on or before `end`. A coupon paid on the start date itself
/// is excluded.
pub open spec fn spec_in_range_open(cf: CashFlow, start: Date, end: Date) -> bool {
    spec_date_lt(start, cf.time) && spec_date_le(cf.time, end)
}

/// Whether a cashflow falls in the closed interval `[start, end]`.
pub open spec fn spec_in_range_inclusive(cf: CashFlow, start: Date, end: Date) -> bool {
    spec_date_le(start, cf.time) && spec_date_le(cf.time, end)
}

/// The subsequence of `s` inside the open-left interval `(start, end]`, in
/// order.
pub open spec fn spec_filtered_open(s: Seq<CashFlow>, start: Date, end: Date) -> Seq<CashFlow>
    decreases s.len(),
{
    if s.len() == 0 {
        Seq::empty()
    } else {
        let rest = spec_filtered_open(s.drop_last(), start, end);
        if spec_in_range_open(s.last(), start, end) {
            rest.push(s.last())
        } else {
            rest
        }
    }
}

/// The subsequence of `s` inside the closed interval `[start, end]`, in
/// order.
pub open spec fn spec_filtered_inclusive(s: Seq<CashFlow>, start: Date, end: Date) -> Seq<
    CashFlow,
>
    decreases s.len(),
{
    if s.len() == 0 {
        Seq::empty()
    } else {
        let rest = spec_filtered_inclusive(s.drop_last(), start, end);
        if spec_in_range_inclusive(s.last(), start, end) {
            rest.push(s.last())
        } else {
            rest
        }
    }
}

/// A bond with a coupon rate within one machine epsilon of zero pays no
/// coupons.
pub open spec fn spec_is_zero_coupon(b: Bond) -> bool {
    f_lt(f_abs(f_sub(b.coupon_rate, F_ZERO)), F_EPSILON)
}

/// The number of whole years from issue to maturity.
pub open spec fn spec_total_years(b: Bond) -> u32 {
    crate::date::spec_years_since(b.maturity_date, b.issue_date)->Some_0
}

/// The bits of the bond's period count: the whole years to maturity, as a
/// single-precision value, times the periods per year.
pub open spec fn spec_num_periods_f(b: Bond) -> u32 {
    match b.periodicity {
        Periodicity::Quarterly => f_mul(f_of_u32(spec_total_years(b)), F_FOUR),
        Periodicity::SemiAnnual => f_mul(f_of_u32(spec_total_years(b)), F_TWO),
        Periodicity::Annual => f_of_u32(spec_total_years(b)),
    }
}

/// The bits of `years` (a single-precision value) times the periods per year.
pub open spec fn spec_num_periods_for_years_f(b: Bond, years: u32) -> u32 {
    match b.periodicity {
        Periodicity::Quarterly => f_mul(years, F_FOUR),
        Periodicity::SemiAnnual => f_mul(years, F_TWO),
        Periodicity::Annual => years,
    }
}

/// The yield to maturity of a zero-coupon bond at `market_price`: the
/// `periods`-th root of principal over price, less one, annualized by the
/// periods per year.
pub open spec fn spec_yield_to_maturity(b: Bond, market_price: u32) -> u32 {
    f_mul(
        f_sub(
            f_powf(f_div(b.principal, market_price), f_div(F_ONE, spec_num_periods_f(b))),
            F_ONE,
        ),
        spec_periods_per_year_f(b.periodicity),
    )
}

/// The continuously compounded rate a `market_price` implies: the natural
/// logarithm of principal over price, per year to maturity.
pub open spec fn spec_infinitely_compounded_rate(b: Bond, market_price: u32) -> u32 {
    f_mul(f_div(F_ONE, f_of_u32(spec_total_years(b))), f_ln(f_div(b.principal, market_price)))
}

/// An annualized rate converted to one compounding `m` times a year:
/// `m * (exp(rate / m) - 1)`.
pub open spec fn spec_rate_for_periodicity(b: Bond, p: Periodicity, market_price: u32) -> u32 {
    let prefix = spec_periods_per_year_f(p);
    f_mul(prefix, f_sub(f_exp(f_div(spec_infinitely_compounded_rate(b, market_price), prefix)), F_ONE))
}

/// The realized annualized return of buying at `purchase_price` and selling
/// at `sale_price` after `years` (single-precision bits): the periodic root
/// of the price ratio, less one, annualized.
pub open spec fn spec_realized_return(b: Bond, purchase_price: u32, sale_price: u32, years: u32) -> u32 {
    f_mul(
        f_sub(
            f_powf(
                f_div(sale_price, purchase_price),
                f_div(F_ONE, spec_num_periods_for_years_f(b, years)),
            ),
            F_ONE,
        ),
        spec_periods_per_year_f(b.periodicity),
    )
}

/// An annualized input adjusted to one period of the bond.
pub open spec fn spec_effective_rate(b: Bond, input: u32) -> u32 {
    match b.periodicity {
        Periodicity::Annual => input,
        Periodicity::SemiAnnual => f_div(input, F_TWO),
        Periodicity::Quarterly => f_div(input, F_FOUR),
    }
}

/// The coupon rate adjusted to one period of the bond.
pub open spec fn spec_effective_coupon_payment(b: Bond) -> u32 {
    match b.periodicity {
        Periodicity::Annual => b.coupon_rate,
        Periodicity::SemiAnnual => f_div(b.coupon_rate, F_TWO),
        Periodicity::Quarterly => f_div(b.coupon_rate, F_FOUR),
    }
}

/// A yield adjusted to one period of the bond.
pub open spec fn spec_adj_interest_per_period(b: Bond, ytm: u32) -> u32 {
    match b.periodicity {
        Periodicity::Quarterly => f_div(ytm, F_FOUR),
        Periodicity::SemiAnnual => f_div(ytm, F_TWO),
        Periodicity::Annual => ytm,
    }
}

/// Appending one element to a sequence extends its open-interval filtering by
/// that element exactly when the element lies in the interval.
proof fn lemma_filtered_open_take_step(s: Seq<CashFlow>, start: Date, end: Date, i: int)
    requires
        0 <= i < s.len(),
    ensures
        spec_filtered_open(s.take(i + 1), start, end) == if spec_in_range_open(s[i], start, end) {
            spec_filtered_open(s.take(i), start, end).push(s[i])
        } else {
            spec_filtered_open(s.take(i), start, end)
        },
{
    assert(s.take(i + 1).drop_last() =~= s.take(i));
    assert(s.take(i + 1).last() == s[i]);
}

/// Appending one element to a sequence extends its closed-interval filtering
/// by that element exactly when the element lies in the interval.
proof fn lemma_filtered_inclusive_take_step(s: Seq<CashFlow>, start: Date, end: Date, i: int)
    requires
        0 <= i < s.len(),
    ensures
        spec_filtered_inclusive(s.take(i + 1), start, end) == if spec_in_range_inclusive(
            s[i],
            start,
            end,
        ) {
            spec_filtered_inclusive(s.take(i), start, end).push(s[i])
        } else {
            spec_filtered_inclusive(s.take(i), start, end)
        },
{
    assert(s.take(i + 1).drop_last() =~= s.take(i));
    assert(s.take(i + 1).last() == s[i]);
}

impl Bond {
    /// Whether the coupon rate lies within one machine epsilon of zero.
    pub fn is_zero_coupon_bond(self) -> (r: bool)
        ensures
            r == spec_is_zero_coupon(self),
    {
        fp::lt(fp::abs(fp::sub(self.coupon_rate, F_ZERO)), F_EPSILON)
    }

    /// The whole years from issue to maturity, as single-precision bits.
    fn total_years(self) -> (r: u32)
        requires
            self.wf(),
        ensures
            r == f_of_u32(spec_total_years(self)),
    {
        match self.maturity_date.years_since(self.issue_date) {
            Some(y) => fp::of_u32(y),
            None => {
                proof {
                    assert(false);
                }
                F_ZERO
            },
        }
    }

    /// The number of coupon periods to maturity, as single-precision bits.
    fn get_num_periods(self) -> (r: u32)
        requires
            self.wf(),
        ensures
            r == spec_num_periods_f(self),
    {
        let ty = self.total_years();
        match self.periodicity {
            Periodicity::Quarterly => fp::mul(ty, F_FOUR),
            Periodicity::SemiAnnual => fp::mul(ty, F_TWO),
            Periodicity::Annual => ty,
        }
    }

    /// The number of coupon periods in `years` (single-precision bits).
    fn get_num_periods_for_years(self, years: u32) -> (r: u32)
        ensures
            r == spec_num_periods_for_years_f(self, years),
    {
        match self.periodicity {
            Periodicity::Quarterly => fp::mul(years, F_FOUR),
            Periodicity::SemiAnnual => fp::mul(years, F_TWO),
            Periodicity::Annual => years,
        }
    }

    /// The number of coupon periods per year, as single-precision bits.
    fn get_periods_per_year(self) -> (r: u32)
        ensures
            r == spec_periods_per_year_f(self.periodicity),
    {
        match self.periodicity {
            Periodicity::Quarterly => F_FOUR,
            Periodicity::SemiAnnual => F_TWO,
            Periodicity::Annual => F_ONE,
        }
    }

    /// A yield adjusted to one period of the bond.
    fn adj_interest_per_period(self, ytm: u32) -> (r: u32)
        ensures
            r == spec_adj_interest_per_period(self, ytm),
    {
        match self.periodicity {
            Periodicity::Quarterly => fp::div(ytm, F_FOUR),
            Periodicity::SemiAnnual => fp::div(ytm, F_TWO),
            Periodicity::Annual => ytm,
        }
    }

    /// The yield to maturity at `market_price`, defined for zero-coupon bonds
    /// alone: for a coupon-bearing bond the result is `None`, a documented
    /// analytical gap rather than an error.
    pub fn yield_to_maturity(self, market_price: u32) -> (r: Option<u32>)
        requires
            self.wf(),
        ensures
            r is Some <==> spec_is_zero_coupon(self),
            r is Some ==> r->Some_0 == spec_yield_to_maturity(self, market_price),
    {
        if self.is_zero_coupon_bond() {
            let num_per = self.get_num_periods();
            let fv = fp::powf(fp::div(self.principal, market_price), fp::div(F_ONE, num_per));
            Some(fp::mul(fp::sub(fv, F_ONE), self.get_periods_per_year()))
        } else {
            None
        }
    }

    /// The continuously compounded rate implied by `market_price`.
    pub fn infinitely_compounded_rate(self, market_price: u32) -> (r: u32)
        requires
            self.wf(),
        ensures
            r == spec_infinitely_compounded_rate(self, market_price),
    {
        fp::mul(
            fp::div(F_ONE, self.total_years()),
            fp::ln(fp::div(self.principal, market_price)),
        )
    }

    /// The continuously compounded rate implied by `market_price`, converted
    /// to compounding at the given periodicity.
    pub fn rate_for_periodicity(self, periodicity: Periodicity, market_price: u32) -> (r: u32)
        requires
            self.wf(),
        ensures
            r == spec_rate_for_periodicity(self, periodicity, market_price),
    {
        let compounded_rate = self.infinitely_compounded_rate(market_price);
        let prefix = match periodicity {
            Periodicity::Quarterly => F_FOUR,
            Periodicity::SemiAnnual => F_TWO,
            Periodicity::Annual => F_ONE,
        };
        fp::mul(prefix, fp::sub(fp::exp(fp::div(compounded_rate, prefix)), F_ONE))
    }

    /// The annualized return realized by buying at `purchase_price` and
    /// selling at `sale_price` after `years` (single-precision bits).
    pub fn realized_return(self, purchase_price: u32, sale_price: u32, years: u32) -> (r: u32)
        ensures
            r == spec_realized_return(self, purchase_price, sale_price, years),
    {
        let periods = self.get_num_periods_for_years(years);
        let rhs = fp::powf(fp::div(sale_price, purchase_price), fp::div(F_ONE, periods));
        fp::mul(fp::sub(rhs, F_ONE), self.get_periods_per_year())
    }

    /// The whole years remaining to maturity from `from_date`, as
    /// single-precision bits. Defined when `from_date` does not fall past
    /// maturity by a whole year.
    pub fn term_remaining(self, from_date: Date) -> (r: u32)
        requires
            crate::date::spec_years_since(self.maturity_date, from_date) is Some,
        ensures
            r == f_of_u32(crate::date::spec_years_since(self.maturity_date, from_date)->Some_0),
    {
        match self.maturity_date.years_since(from_date) {
            Some(y) => fp::of_u32(y),
            None => {
                proof {
                    assert(false);
                }
                F_ZERO
            },
        }
    }

    /// An annualized input adjusted to one period of the bond.
    pub fn get_effective_rate(&self, input: u32) -> (r: u32)
        ensures
            r == spec_effective_rate(*self, input),
    {
        match self.periodicity {
            Periodicity::Annual => input,
            Periodicity::SemiAnnual => fp::div(input, F_TWO),
            Periodicity::Quarterly => fp::div(input, F_FOUR),
        }
    }

    /// The coupon rate adjusted to one period of the bond.
    pub fn get_effective_coupon_payment(&self) -> (r: u32)
        ensures
            r == spec_effective_coupon_payment(*self),
    {
        match self.periodicity {
            Periodicity::Annual => self.coupon_rate,
            Periodicity::SemiAnnual => fp::div(self.coupon_rate, F_TWO),
            Periodicity::Quarterly => fp::div(self.coupon_rate, F_FOUR),
        }
    }

    /// The cashflows in the open-left interval `(start_date, end_date]`: a
    /// coupon paid on the start date itself is excluded.
    pub fn cashflow_between(self, start_date: Date, end_date: Date) -> (r: Vec<CashFlow>)
        requires
            self.wf(),
        ensures
            r@ == spec_filtered_open(spec_cashflow(self), start_date, end_date),
    {
        let cfs = self.cashflow();
        let n = cfs.len();
        let mut result: Vec<CashFlow> = Vec::new();
        let mut i: usize = 0;
        while i < n
            invariant
                n == cfs.len(),
                cfs@ == spec_cashflow(self),
                0 <= i <= n,
                result@ == spec_filtered_open(cfs@.take(i as int), start_date, end_date),
            decreases n - i,
        {
            let cf = cfs[i];
            proof {
                lemma_filtered_open_take_step(cfs@, start_date, end_date, i as int);
            }
            if start_date.lt(cf.time) && cf.time.le(end_date) {
                result.push(cf);
            }
            i = i + 1;
        }
        proof {
            assert(cfs@.take(n as int) =~= cfs@);
        }
        result
    }

    /// The cashflows in the closed interval `[start_date, end_date]`: the
    /// variant used for realized-return computation, where a coupon paid on
    /// the purchase date itself counts.
    pub fn cashflow_between_inclusive(self, start_date: Date, end_date: Date) -> (r: Vec<
        CashFlow,
    >)
        requires
            self.wf(),
        ensures
            r@ == spec_filtered_inclusive(spec_cashflow(self), start_date, end_date),
    {
        let cfs = self.cashflow();
        let n = cfs.len();
        let mut result: Vec<CashFlow> = Vec::new();
        let mut i: usize = 0;
        while i < n
            invariant
                n == cfs.len(),
                cfs@ == spec_cashflow(self),
                0 <= i <= n,
                result@ == spec_filtered_inclusive(cfs@.take(i as int), start_date, end_date),
            decreases n - i,
        {
            let cf = cfs[i];
            proof {
                lemma_filtered_inclusive_take_step(cfs@, start_date, end_date, i as int);
            }
            if start_date.le(cf.time) && cf.time.le(end_date) {
                result.push(cf);
            }
            i = i + 1;
        }
        proof {
            assert(cfs@.take(n as int) =~= cfs@);
        }
        result
    }

    /// One reinvestment amount for every cashflow in the closed interval
    /// `[start_date, end_date]` except the last, which has not yet had time
    /// to be reinvested.
    pub fn reinvestment_amount_between(self, start_date: Date, end_date: Date) -> (r: Vec<u32>)
        requires
            self.wf(),
        ensures
            r@.len() == (if spec_filtered_inclusive(spec_cashflow(self), start_date, end_date).len()
                == 0 {
                0int
            } else {
                spec_filtered_inclusive(spec_cashflow(self), start_date, end_date).len() - 1
            }),
            forall|k: int| 0 <= k < r@.len() ==> r@[k] == spec_reinvestment_amount(self),
    {
        let cashflows = self.cashflow_between_inclusive(start_date, end_date);
        let n = cashflows.len();
        let mut result: Vec<u32> = Vec::new();
        let mut i: usize = 0;
        while i < n
            invariant
                n == spec_filtered_inclusive(spec_cashflow(self), start_date, end_date).len(),
                0 <= i <= n,
                i < n ==> result@.len() == i as int,
                i == n && n > 0 ==> result@.len() == n - 1,
                n == 0 ==> result@.len() == 0,
                forall|k: int| 0 <= k < result@.len() ==> result@[k] == spec_reinvestment_amount(
                    self,
                ),
            decreases n - i,
        {
            if i + 1 < n {
                result.push(self.reinvestment_amount());
            }
            i = i + 1;
        }
        result
    }
}


/// The price trajectory accumulator: starting from `acc`, one compounding by
/// `(1 + ir)` for each schedule date whose year lies within `years` of the
/// issue year; the walk stops at the first date outside that window.
pub open spec fn spec_atm_accum(
    sch: Seq<Date>,
    issue_year: int,
    years: int,
    ir: u32,
    acc: u32,
    i: int,
) -> u32
    decreases sch.len() - i,
{
    if i < 0 || i >= sch.len() {
        acc
    } else if (if issue_year >= sch[i].year {
        issue_year - sch[i].year
    } else {
        sch[i].year - issue_year
    }) < years {
        spec_atm_accum(sch, issue_year, years, ir, f_mul(acc, f_add(F_ONE, ir)), i + 1)
    } else {
        acc
    }
}

/// The price a zero-coupon bond bought at `market_price` reaches after
/// `years` on its own constant-yield path; zero for a coupon-bearing bond,
/// whose yield to maturity this engine does not define.
pub open spec fn spec_at_the_money_yield_trajectory(b: Bond, market_price: u32, years: int) -> u32 {
    if spec_is_zero_coupon(b) {
        spec_atm_accum(
            spec_schedule(b),
            b.issue_date.year as int,
            years,
            spec_adj_interest_per_period(b, spec_yield_to_maturity(b, market_price)),
            market_price,
            0,
        )
    } else {
        F_ZERO
    }
}

/// The present-value accumulator for pricing at a date: each schedule date on
/// or after `at_date` contributes the coupon rate (on the final date, the
/// coupon rate plus the principal) discounted by `(1 + ir)` to the power of
/// the date's position.
pub open spec fn spec_mp_accum(
    b: Bond,
    sch: Seq<Date>,
    ir: u32,
    at_date: Date,
    acc: u32,
    i: int,
) -> u32
    decreases sch.len() - i,
{
    if i < 0 || i >= sch.len() {
        acc
    } else {
        let acc2 = if spec_date_le(at_date, sch[i]) {
            let den = f_powf(f_add(F_ONE, ir), f_of_u32(i as u32));
            if i == sch.len() - 1 {
                f_add(acc, f_div(f_add(b.coupon_rate, b.principal), den))
            } else {
                f_add(acc, f_div(b.coupon_rate, den))
            }
        } else {
            acc
        };
        spec_mp_accum(b, sch, ir, at_date, acc2, i + 1)
    }
}

/// The market price of the bond at `at_date` under the periodic yield `ytm`:
/// the coupons on or after that date, discounted back by their position.
pub open spec fn spec_market_price_at_date(b: Bond, ytm: u32, at_date: Date) -> u32 {
    spec_mp_accum(
        b,
        spec_schedule(b),
        spec_adj_interest_per_period(b, ytm),
        at_date,
        F_ZERO,
        0,
    )
}

/// The constant-yield price after `i` periods: `market_price` compounded `i`
/// times by `(1 + ir)`.
pub open spec fn spec_cy_price(market_price: u32, ir: u32, i: int) -> u32
    decreases i,
{
    if i <= 0 {
        market_price
    } else {
        f_mul(spec_cy_price(market_price, ir, i - 1), f_add(F_ONE, ir))
    }
}

impl Bond {
    /// The baseline price after `years` of holding the bond bought at
    /// `market_price`, compounding at its own yield to maturity period by
    /// period; zero when the yield is undefined (a coupon-bearing bond).
    pub fn at_the_money_yield_trajectory(self, market_price: u32, years: i32) -> (r: u32)
        requires
            self.wf(),
        ensures
            r == spec_at_the_money_yield_trajectory(self, market_price, years as int),
    {
        let ytm_option = self.yield_to_maturity(market_price);
        match ytm_option {
            Some(ytm) => {
                let intervals: Vec<Date> = self.periodicity();
                let interest_rate = self.adj_interest_per_period(ytm);
                let n = intervals.len();
                let ghost target = spec_atm_accum(
                    intervals@,
                    self.issue_date.year as int,
                    years as int,
                    interest_rate,
                    market_price,
                    0,
                );
                let mut accum = market_price;
                let mut i: usize = 0;
                let mut done = false;
                while i < n && !done
                    invariant
                        n == intervals.len(),
                        0 <= i <= n,
                        !done ==> target == spec_atm_accum(
                            intervals@,
                            self.issue_date.year as int,
                            years as int,
                            interest_rate,
                            accum,
                            i as int,
                        ),
                        done ==> target == accum,
                    decreases n - i, (if done { 0int } else { 1int }),
                {
                    let iy = self.issue_date.year;
                    let cy = intervals[i].year;
                    let diff: u32 = if iy >= cy {
                        iy - cy
                    } else {
                        cy - iy
                    };
                    if (diff as i64) < (years as i64) {
                        accum = fp::mul(accum, fp::add(F_ONE, interest_rate));
                        i = i + 1;
                    } else {
                        done = true;
                    }
                }
                accum
            },
            None => F_ZERO,
        }
    }

    /// The market price at `at_date` under the periodic yield `ytm`: the
    /// remaining coupons and the final principal, discounted back by their
    /// position on the schedule.
    fn market_price_at_date(self, ytm: u32, at_date: Date) -> (r: u32)
        requires
            self.wf(),
        ensures
            r == spec_market_price_at_date(self, ytm, at_date),
    {
        let intervals: Vec<Date> = self.periodicity();
        let interest_rate = self.adj_interest_per_period(ytm);
        let n = intervals.len();
        proof {
            lemma_schedule_len_bound(self);
        }
        let ghost target = spec_mp_accum(self, intervals@, interest_rate, at_date, F_ZERO, 0);
        let mut accum = F_ZERO;
        let mut i: usize = 0;
        while i < n
            invariant
                self.wf(),
                n == intervals.len(),
                n <= 0xffff_ffff,
                intervals@ == spec_schedule(self),
                interest_rate == spec_adj_interest_per_period(self, ytm),
                0 <= i <= n,
                target == spec_mp_accum(self, intervals@, interest_rate, at_date, accum, i as int),
            decreases n - i,
        {
            let coupon_time = intervals[i];
            if at_date.le(coupon_time) {
                let den = fp::powf(fp::add(F_ONE, interest_rate), fp::of_u32(i as u32));
                if i + 1 == n {
                    accum = fp::add(accum, fp::div(fp::add(self.coupon_rate, self.principal), den));
                } else {
                    accum = fp::add(accum, fp::div(self.coupon_rate, den));
                }
            }
            i = i + 1;
        }
        accum
    }

    /// The price of the bond at each schedule date under the periodic yield
    /// `ytm`.
    pub fn market_price_trajectory(self, ytm: u32) -> (r: Vec<(Date, u32)>)
        requires
            self.wf(),
        ensures
            r@.len() == spec_schedule(self).len(),
            forall|k: int|
                0 <= k < r@.len() ==> r@[k].0 == spec_schedule(self)[k] && r@[k].1
                    == spec_market_price_at_date(self, ytm, spec_schedule(self)[k]),
    {
        let intervals: Vec<Date> = self.periodicity();
        let n = intervals.len();
        let mut result: Vec<(Date, u32)> = Vec::new();
        let mut i: usize = 0;
        while i < n
            invariant
                self.wf(),
                n == intervals.len(),
                intervals@ == spec_schedule(self),
                0 <= i <= n,
                result@.len() == i as int,
                forall|k: int|
                    0 <= k < i ==> result@[k].0 == spec_schedule(self)[k] && result@[k].1
                        == spec_market_price_at_date(self, ytm, spec_schedule(self)[k]),
            decreases n - i,
        {
            let coupon_time = intervals[i];
            let mp = self.market_price_at_date(ytm, coupon_time);
            result.push((coupon_time, mp));
            i = i + 1;
        }
        result
    }

    /// The constant-yield price trajectory of a zero-coupon bond bought at
    /// `market_price`: one entry per schedule date, the first carrying
    /// exactly `market_price` (the price is reproduced unchanged at the
    /// issue date), each later one compounded once more by the periodic
    /// yield.
    pub fn constant_yield_price_trajectory(self, market_price: u32) -> (r: Vec<(Date, u32)>)
        requires
            self.wf(),
            spec_is_zero_coupon(self),
        ensures
            r@.len() == spec_schedule(self).len(),
            forall|k: int|
                0 <= k < r@.len() ==> r@[k].0 == spec_schedule(self)[k] && r@[k].1
                    == spec_cy_price(
                    market_price,
                    spec_adj_interest_per_period(self, spec_yield_to_maturity(self, market_price)),
                    k,
                ),
            r@.len() >= 2,
            r@[0].1 == market_price,
    {
        proof {
            lemma_schedule_cashflow_len(self);
        }
        let mut result: Vec<(Date, u32)> = Vec::new();
        let ytm_option = self.yield_to_maturity(market_price);
        match ytm_option {
            Some(ytm) => {
                let intervals: Vec<Date> = self.periodicity();
                let interest_rate = self.adj_interest_per_period(ytm);
                let n = intervals.len();
                let mut accum = market_price;
                let mut i: usize = 0;
                while i < n
                    invariant
                        self.wf(),
                        n == intervals.len(),
                        intervals@ == spec_schedule(self),
                        interest_rate == spec_adj_interest_per_period(
                            self,
                            spec_yield_to_maturity(self, market_price),
                        ),
                        0 <= i <= n,
                        result@.len() == i as int,
                        accum == spec_cy_price(market_price, interest_rate, i as int),
                        forall|k: int|
                            0 <= k < i ==> result@[k].0 == spec_schedule(self)[k] && result@[k].1
                                == spec_cy_price(market_price, interest_rate, k),
                    decreases n - i,
                {
                    let coupon_time = intervals[i];
                    result.push((coupon_time, accum));
                    accum = fp::mul(accum, fp::add(F_ONE, interest_rate));
                    i = i + 1;
                }
                result
            },
            None => {
                proof {
                    assert(false);
                }
                result
            },
        }
    }
}

/// The schedule of a meaningful bond is far shorter than `u32` can count: at
/// most one entry per month-step between issue and maturity.
pub proof fn lemma_schedule_len_bound(b: Bond)
    requires
        b.wf(),
    ensures
        spec_schedule(b).len() <= 0xffff_ffff,
{
    lemma_schedule_tail_len_bound(
        b.issue_date,
        b.maturity_date,
        spec_months_in_period(b.periodicity),
    );
}

/// Each step of a schedule tail moves at least one day forward, so the tail
/// is no longer than the day-count distance it covers, plus the final step
/// past maturity.
proof fn lemma_schedule_tail_len_bound(st: Date, mat: Date, months: u32)
    requires
        st.valid(),
        mat.valid(),
        1 <= months <= 12,
        mat.year < 99_000,
        st.year <= mat.year + 1,
    ensures
        spec_schedule_tail(st, mat, months).len() <= (if spec_date_le(st, mat) {
            date_ord(mat) - date_ord(st) + 1int
        } else {
            0int
        }),
    decreases (if spec_date_le(st, mat) {
        date_ord(mat) - date_ord(st) + 1int
    } else {
        0int
    }),
{
    if spec_date_le(st, mat) {
        let nxt = spec_add_months(st, months as int);
        lemma_add_months_step(st, months);
        lemma_date_lt_ord(st, nxt);
        if spec_date_lt(nxt, mat) {
            lemma_date_lt_ord(nxt, mat);
        }
        lemma_schedule_tail_len_bound(nxt, mat, months);
    }
}


/// The bootstrapped discount factor of row `i`: row zero divides its price by
/// par plus its periodic coupon; each later row first strips the value of its
/// already-discounted earlier coupons from its price.
pub open spec fn spec_boot_discount(md: Seq<MarketData>, ifac: u32, i: int) -> u32
    decreases i, 1int, 0int,
        when 0 <= i
{
    if i == 0 {
        f_div(md[0].market_price, f_add(F_HUNDRED, f_div(md[0].coupon_rate, ifac)))
    } else {
        f_div(
            f_sub(md[i].market_price, spec_boot_sigma(md, ifac, i, i)),
            f_add(F_HUNDRED, f_div(md[i].coupon_rate, ifac)),
        )
    }
}

/// The running sum, over the first `j` rows, of row `i`'s periodic coupon
/// discounted by each earlier row's bootstrapped factor, accumulated in row
/// order.
pub open spec fn spec_boot_sigma(md: Seq<MarketData>, ifac: u32, i: int, j: int) -> u32
    decreases i, 0int, j,
        when 0 <= j <= i
{
    if j <= 0 {
        F_ZERO
    } else {
        f_add(
            spec_boot_sigma(md, ifac, i, j - 1),
            f_mul(f_div(md[i].coupon_rate, ifac), spec_boot_discount(md, ifac, j - 1)),
        )
    }
}

/// The term label of row `i`: the `(i+1)`-th multiple of one period, in
/// years. The labels are synthesized from row position; the input rows' own
/// term fields play no part.
pub open spec fn spec_boot_term(p: Periodicity, i: int) -> u32 {
    if i == 0 {
        f_div(spec_months_f(p), F_TWELVE)
    } else {
        f_div(f_mul(f_of_u32((i + 1) as u32), spec_months_f(p)), F_TWELVE)
    }
}

/// The number of months in one payment period, as single-precision bits.
fn get_months_as_f32(payment_schedule: Periodicity) -> (r: u32)
    ensures
        r == spec_months_f(payment_schedule),
{
    match payment_schedule {
        Periodicity::Quarterly => F_THREE,
        Periodicity::SemiAnnual => F_SIX,
        Periodicity::Annual => F_TWELVE,
    }
}

/// Bootstraps a discount-factor table from an ordered price curve: one factor
/// per input row, each solved using only the factors of earlier rows, in row
/// order. The recurrence reads the rows by position, so reordering the same
/// rows changes the results; no clamping is applied, so a malformed curve can
/// yield factors outside `(0, 1]`.
pub fn discount_factor(market_data: &Vec<MarketData>, payment_schedule: Periodicity) -> (r: Vec<
    DiscountFactor,
>)
    requires
        market_data@.len() < 0xffff_ffff,
    ensures
        r@.len() == market_data@.len(),
        forall|k: int|
            0 <= k < r@.len() ==> (#[trigger] r@[k]).discount == spec_boot_discount(
                market_data@,
                f_div(F_TWELVE, spec_months_f(payment_schedule)),
                k,
            ) && r@[k].term == spec_boot_term(payment_schedule, k),
{
    let mut result: Vec<DiscountFactor> = Vec::new();
    let months_f32 = get_months_as_f32(payment_schedule);
    let interest_factor = fp::div(F_TWELVE, months_f32);
    let n = market_data.len();
    let mut i: usize = 0;
    while i < n
        invariant
            n == market_data@.len(),
            n < 0xffff_ffff,
            months_f32 == spec_months_f(payment_schedule),
            interest_factor == f_div(F_TWELVE, spec_months_f(payment_schedule)),
            0 <= i <= n,
            result@.len() == i as int,
            forall|k: int|
                0 <= k < i ==> (#[trigger] result@[k]).discount == spec_boot_discount(
                    market_data@,
                    interest_factor,
                    k,
                ) && result@[k].term == spec_boot_term(payment_schedule, k),
        decreases n - i,
    {
        if i == 0 {
            let numerator = market_data[0].market_price;
            let denominator = fp::add(
                F_HUNDRED,
                fp::div(market_data[0].coupon_rate, interest_factor),
            );
            let init_value = fp::div(numerator, denominator);
            let df = DiscountFactor { term: fp::div(months_f32, F_TWELVE), discount: init_value };
            result.push(df);
        } else {
            let md = market_data[i];
            let mut inter_sigma = F_ZERO;
            let mut k: usize = 0;
            while k < i
                invariant
                    n == market_data@.len(),
                    n < 0xffff_ffff,
                    interest_factor == f_div(F_TWELVE, spec_months_f(payment_schedule)),
                    0 <= k <= i < n,
                    md == market_data@[i as int],
                    result@.len() == i as int,
                    forall|j: int|
                        0 <= j < i ==> (#[trigger] result@[j]).discount == spec_boot_discount(
                            market_data@,
                            interest_factor,
                            j,
                        ),
                    inter_sigma == spec_boot_sigma(
                        market_data@,
                        interest_factor,
                        i as int,
                        k as int,
                    ),
                decreases i - k,
            {
                inter_sigma = fp::add(
                    inter_sigma,
                    fp::mul(fp::div(md.coupon_rate, interest_factor), result[k].discount),
                );
                k = k + 1;
            }
            let numerator = fp::sub(md.market_price, inter_sigma);
            let denominator = fp::add(F_HUNDRED, fp::div(md.coupon_rate, interest_factor));
            let new_value = fp::div(numerator, denominator);
            let df = DiscountFactor {
                term: fp::div(fp::mul(fp::of_u32((i + 1) as u32), months_f32), F_TWELVE),
                discount: new_value,
            };
            result.push(df);
        }
        i = i + 1;
    }
    result
}


/// Each step of a schedule tail lands strictly past the starting date, and
/// the tail itself is strictly increasing.
proof fn lemma_schedule_tail_ordered(st: Date, mat: Date, months: u32)
    requires
        st.valid(),
        mat.valid(),
        1 <= months <= 12,
        mat.year < 99_000,
        st.year <= mat.year + 1,
    ensures
        forall|i: int|
            0 <= i < spec_schedule_tail(st, mat, months).len() ==> spec_date_lt(
                st,
                #[trigger] spec_schedule_tail(st, mat, months)[i],
            ),
        forall|i: int, j: int|
            0 <= i < j < spec_schedule_tail(st, mat, months).len() ==> spec_date_lt(
                #[trigger] spec_schedule_tail(st, mat, months)[i],
                #[trigger] spec_schedule_tail(st, mat, months)[j],
            ),
    decreases (if spec_date_le(st, mat) {
        date_ord(mat) - date_ord(st) + 1int
    } else {
        0int
    }),
{
    if spec_date_le(st, mat) {
        let nxt = spec_add_months(st, months as int);
        lemma_add_months_step(st, months);
        lemma_date_lt_ord(st, nxt);
        if spec_date_lt(nxt, mat) {
            lemma_date_lt_ord(nxt, mat);
        }
        lemma_schedule_tail_ordered(nxt, mat, months);
        let tail = spec_schedule_tail(st, mat, months);
        let rest = spec_schedule_tail(nxt, mat, months);
        assert(tail =~= seq![nxt] + rest);
        assert forall|i: int| 0 <= i < tail.len() implies spec_date_lt(st, tail[i]) by {
            if i == 0 {
                assert(tail[i] == nxt);
            } else {
                assert(tail[i] == rest[i - 1]);
                assert(spec_date_lt(nxt, rest[i - 1]));
            }
        }
        assert forall|i: int, j: int| 0 <= i < j < tail.len() implies spec_date_lt(
            tail[i],
            tail[j],
        ) by {
            assert(tail[j] == rest[j - 1]);
            if i == 0 {
                assert(tail[i] == nxt);
                assert(spec_date_lt(nxt, rest[j - 1]));
            } else {
                assert(tail[i] == rest[i - 1]);
            }
        }
    }
}

/// The payment schedule is chronologically ordered: the issue date comes
/// first, and each later date falls strictly after the one before it. The
/// cashflow dates, which are the schedule dates after the issue date, are
/// therefore ordered the same way.
pub proof fn lemma_schedule_ordered(b: Bond)
    requires
        b.wf(),
    ensures
        forall|i: int, j: int|
            0 <= i < j < spec_schedule(b).len() ==> spec_date_lt(
                #[trigger] spec_schedule(b)[i],
                #[trigger] spec_schedule(b)[j],
            ),
        forall|i: int, j: int|
            0 <= i < j < spec_cashflow(b).len() ==> spec_date_lt(
                (#[trigger] spec_cashflow(b)[i]).time,
                (#[trigger] spec_cashflow(b)[j]).time,
            ),
{
    lemma_schedule_tail_ordered(
        b.issue_date,
        b.maturity_date,
        spec_months_in_period(b.periodicity),
    );
}

/// A schedule tail started on or before maturity ends with the first date
/// strictly past maturity, every earlier date falling on or before it.
proof fn lemma_schedule_tail_boundary(st: Date, mat: Date, months: u32)
    requires
        st.valid(),
        mat.valid(),
        1 <= months <= 12,
        mat.year < 99_000,
        st.year <= mat.year + 1,
        spec_date_le(st, mat),
    ensures
        spec_schedule_tail(st, mat, months).len() >= 1,
        spec_date_lt(mat, spec_schedule_tail(st, mat, months).last()),
        forall|i: int|
            0 <= i < spec_schedule_tail(st, mat, months).len() - 1 ==> spec_date_le(
                #[trigger] spec_schedule_tail(st, mat, months)[i],
                mat,
            ),
    decreases date_ord(mat) - date_ord(st),
{
    let nxt = spec_add_months(st, months as int);
    lemma_add_months_step(st, months);
    lemma_date_lt_ord(st, nxt);
    let tail = spec_schedule_tail(st, mat, months);
    let rest = spec_schedule_tail(nxt, mat, months);
    assert(tail =~= seq![nxt] + rest);
    if spec_date_le(nxt, mat) {
        if spec_date_lt(nxt, mat) {
            lemma_date_lt_ord(nxt, mat);
        }
        lemma_schedule_tail_boundary(nxt, mat, months);
        assert(tail.last() == rest.last());
        assert forall|i: int| 0 <= i < tail.len() - 1 implies spec_date_le(tail[i], mat) by {
            if i >= 1 {
                assert(tail[i] == rest[i - 1]);
            }
        }
    } else {
        assert(rest =~= Seq::<Date>::empty());
        assert(tail.last() == nxt);
    }
}

/// The schedule closes exactly one step past maturity: its last date falls
/// strictly after the maturity date and every other date on or before it.
pub proof fn lemma_schedule_boundary(b: Bond)
    requires
        b.wf(),
    ensures
        spec_schedule(b).len() >= 2,
        spec_date_lt(b.maturity_date, spec_schedule(b).last()),
        forall|i: int|
            0 <= i < spec_schedule(b).len() - 1 ==> spec_date_le(
                #[trigger] spec_schedule(b)[i],
                b.maturity_date,
            ),
{
    lemma_schedule_tail_boundary(
        b.issue_date,
        b.maturity_date,
        spec_months_in_period(b.periodicity),
    );
    let sch = spec_schedule(b);
    let tail = spec_schedule_tail(
        b.issue_date,
        b.maturity_date,
        spec_months_in_period(b.periodicity),
    );
    assert(sch.last() == tail.last());
    assert forall|i: int| 0 <= i < sch.len() - 1 implies spec_date_le(sch[i], b.maturity_date) by {
        if i >= 1 {
            assert(sch[i] == tail[i - 1]);
        }
    }
}

/// Every cashflow but the last pays exactly the periodic coupon, and the
/// last pays the principal plus that same coupon: over exact arithmetic the
/// non-final amounts sum to one coupon payment per interior period.
pub proof fn lemma_cashflow_amounts(b: Bond)
    requires
        b.wf(),
    ensures
        spec_cashflow(b).len() >= 1,
        forall|i: int|
            0 <= i < spec_cashflow(b).len() - 1 ==> (#[trigger] spec_cashflow(b)[i]).amount
                == spec_coupon_payment(b),
        spec_cashflow(b)[spec_cashflow(b).len() - 1].amount == f_add(
            b.principal,
            spec_coupon_payment(b),
        ),
{
    lemma_schedule_cashflow_len(b);
}

} // verus!
