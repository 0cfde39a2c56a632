//! Profit-and-loss attribution for a bond transaction: realized returns,
//! term (forward) rates implied by a discount curve, and the forward-implied
//! price reconstructed from a term-rate sequence and a spread.
use vstd::prelude::*;

use crate::bond::Bond;
use crate::bond::CashFlow;
use crate::bond::DiscountFactor;
use crate::bond::spec_cashflow;
use crate::bond::spec_effective_coupon_payment;
use crate::bond::spec_effective_rate;
use crate::bond::spec_filtered_inclusive;
use crate::bond::spec_periods_per_year_f;
use crate::bond::spec_reinvestment_amount;
use crate::date::Date;
use crate::fp;
use crate::fp::f_add;
use crate::fp::f_div;
use crate::fp::f_mul;
use crate::fp::f_sub;
use crate::fp::F_ONE;
use crate::fp::F_ZERO;

verus! {

/// Whether a term structure's forwards have been realized.
pub enum RealizedForwards {
    RealizedForwards,
    UnrealizedForwards,
}

/// The components a profit-and-loss report attributes a price change to.
pub enum Attribution {
    CashCarry,
    CashRollDown,
    Rates,
    Spread,
}

/// The spot rate of one term at one starting period, single-precision bits.
pub struct TermStructure {
    pub starting_period: Date,
    pub term: u32,
    pub spot_rate: u32,
}

/// A priced point of a term structure at a pricing date.
pub struct PriceStructure {
    pub pricing_date: Date,
    pub term_structure: TermStructure,
    pub spread: u32,
    pub price: u32,
}

/// One entry of a profit-and-loss report: a pricing date and its term
/// structure.
pub struct PandLEntry {
    pub pricing_date: Date,
    pub term_structure: Vec<TermStructure>,
}

/// The profit-and-loss report for a bond at a given date.
pub struct PandL {
    pub bond: Bond,
    pub asof: Date,
    pub attribution: Vec<PandLEntry>,
}

impl PriceStructure {
    /// The price change of this structure. Not yet computed by the engine:
    /// the result is always zero.
    pub fn change(&self) -> (r: u32)
        ensures
            r == F_ZERO,
    {
        F_ZERO
    }
}

/// The forward term structure at `input`. Not yet computed by the engine:
/// the result is always empty.
pub fn forward_term_structure(structure: Vec<TermStructure>, input: Date) -> (r: Vec<
    TermStructure,
>)
    ensures
        r@.len() == 0,
{
    Vec::new()
}

/// A purchase and a sale of a bond, with the term-rate scratch sequence the
/// forward computations read. All prices and rates are single-precision bits.
#[derive(Debug, Clone)]
pub struct BondTransaction {
    pub underlying: Bond,
    pub purchase_date: Date,
    pub purchase_price: u32,
    pub sale_date: Date,
    pub sale_price: u32,
    pub term_rate: Vec<u32>,
}

/// The term rate one discount factor implies: for the earliest factor, the
/// reciprocal of the discount less one; between two factors, their ratio less
/// one; both annualized by the periods per year.
pub open spec fn spec_individual_term(b: Bond, previous: Option<u32>, current: Option<u32>) -> u32 {
    match (previous, current) {
        (None, Some(discount)) => f_mul(
            f_sub(f_div(F_ONE, discount), F_ONE),
            spec_periods_per_year_f(b.periodicity),
        ),
        (Some(d1), Some(d2)) => f_mul(
            f_sub(f_div(d1, d2), F_ONE),
            spec_periods_per_year_f(b.periodicity),
        ),
        _ => F_ZERO,
    }
}

/// The term rates a sorted discount curve implies, one per factor, in order.
pub open spec fn spec_term_rates(b: Bond, dfs: Seq<DiscountFactor>) -> Seq<u32> {
    Seq::new(
        dfs.len(),
        |i: int|
            if i == 0 {
                spec_individual_term(b, None, Some(dfs[0].discount))
            } else {
                spec_individual_term(b, Some(dfs[i - 1].discount), Some(dfs[i].discount))
            },
    )
}

/// The forward-price accumulator: walking the term rates from position `i`,
/// the denominator compounds by one effective periodic rate (term rate plus
/// spread) per step, and the running sum gains the effective coupon over the
/// new denominator at each step. Returns the pair of the sum and the
/// denominator.
pub open spec fn spec_forwards_accum(
    b: Bond,
    rates: Seq<u32>,
    spread: u32,
    i: int,
    acc: u32,
    denom: u32,
) -> (u32, u32)
    decreases rates.len() - i,
{
    if i < 0 || i >= rates.len() {
        (acc, denom)
    } else {
        let eff = spec_effective_rate(b, f_add(rates[i], spread));
        let denom2 = f_mul(denom, f_add(F_ONE, eff));
        let acc2 = f_add(acc, f_div(spec_effective_coupon_payment(b), denom2));
        spec_forwards_accum(b, rates, spread, i + 1, acc2, denom2)
    }
}

/// The forward-implied price of a transaction: the discounted effective
/// coupons from `forward` periods into its term-rate sequence, plus the
/// principal over the final denominator.
pub open spec fn spec_realized_forwards(t: BondTransaction, forward: int, spread: u32) -> u32 {
    let pair = spec_forwards_accum(t.underlying, t.term_rate@, spread, forward, F_ZERO, F_ONE);
    f_add(pair.0, f_div(t.underlying.principal, pair.1))
}

/// The running sum of the first `i` cashflow amounts, in order.
pub open spec fn spec_cashflow_sum(s: Seq<CashFlow>, i: int) -> u32
    decreases i,
{
    if i <= 0 {
        F_ZERO
    } else {
        f_add(spec_cashflow_sum(s, i - 1), s[i - 1].amount)
    }
}

/// The running sum of `m` copies of the reinvestment amount `ra`.
pub open spec fn spec_reinvestment_sum(ra: u32, m: int) -> u32
    decreases m,
{
    if m <= 0 {
        F_ZERO
    } else {
        f_add(spec_reinvestment_sum(ra, m - 1), ra)
    }
}

/// The realized holding-period return of a transaction, in decimal: the sale
/// price plus the cashflows and reinvestment amounts earned between purchase
/// and sale (both inclusive), less the purchase price, over the purchase
/// price.
pub open spec fn spec_compute_realized_return(t: BondTransaction) -> u32 {
    let flows = spec_filtered_inclusive(
        spec_cashflow(t.underlying),
        t.purchase_date,
        t.sale_date,
    );
    let cashflows_sum = spec_cashflow_sum(flows, flows.len() as int);
    let m: int = if flows.len() == 0 {
        0
    } else {
        flows.len() - 1
    };
    let reinvestment_sum = spec_reinvestment_sum(spec_reinvestment_amount(t.underlying), m);
    f_div(
        f_sub(f_add(f_add(t.sale_price, cashflows_sum), reinvestment_sum), t.purchase_price),
        t.purchase_price,
    )
}

impl BondTransaction {
    /// Replaces the scratch term-rate sequence, so the same transaction can
    /// be repriced under different curve slices. Every other field keeps its
    /// value.
    pub fn set_term_rates(&mut self, term_rates: &Vec<u32>)
        ensures
            final(self).term_rate@ == term_rates@,
            final(self).underlying == old(self).underlying,
            final(self).purchase_date == old(self).purchase_date,
            final(self).purchase_price == old(self).purchase_price,
            final(self).sale_date == old(self).sale_date,
            final(self).sale_price == old(self).sale_price,
    {
        self.term_rate.clear();
        let n = term_rates.len();
        let mut i: usize = 0;
        while i < n
            invariant
                n == term_rates@.len(),
                0 <= i <= n,
                self.term_rate@ == term_rates@.take(i as int),
                self.underlying == old(self).underlying,
                self.purchase_date == old(self).purchase_date,
                self.purchase_price == old(self).purchase_price,
                self.sale_date == old(self).sale_date,
                self.sale_price == old(self).sale_price,
            decreases n - i,
        {
            self.term_rate.push(term_rates[i]);
            i = i + 1;
        }
        proof {
            assert(term_rates@.take(n as int) =~= term_rates@);
        }
    }

    /// The term rate between two adjacent discount factors, or from par for
    /// the earliest one.
    fn compute_individual_term(&self, previous_discount: Option<u32>, current_discount: Option<
        u32,
    >) -> (r: u32)
        ensures
            r == spec_individual_term(self.underlying, previous_discount, current_discount),
    {
        let ppy = match self.underlying.periodicity {
            crate::bond::Periodicity::Quarterly => crate::fp::F_FOUR,
            crate::bond::Periodicity::SemiAnnual => crate::fp::F_TWO,
            crate::bond::Periodicity::Annual => F_ONE,
        };
        match (previous_discount, current_discount) {
            (None, Some(discount)) => fp::mul(fp::sub(fp::div(F_ONE, discount), F_ONE), ppy),
            (Some(d1), Some(d2)) => fp::mul(fp::sub(fp::div(d1, d2), F_ONE), ppy),
            _ => F_ZERO,
        }
    }

    /// The term (forward) rates implied by a discount curve, one per factor,
    /// in order. The curve must already stand sorted ascending by term.
    pub fn compute_term_rate(&self, discount_factors: &Vec<DiscountFactor>) -> (r: Vec<u32>)
        ensures
            r@ == spec_term_rates(self.underlying, discount_factors@),
    {
        let n = discount_factors.len();
        if n == 0 {
            let r: Vec<u32> = Vec::new();
            proof {
                assert(r@ =~= spec_term_rates(self.underlying, discount_factors@));
            }
            r
        } else {
            let mut prev_discount: Option<u32> = None;
            let mut result: Vec<u32> = Vec::new();
            let mut i: usize = 0;
            while i < n
                invariant
                    n == discount_factors@.len(),
                    0 <= i <= n,
                    result@.len() == i as int,
                    prev_discount == (if i == 0 {
                        Option::<u32>::None
                    } else {
                        Some(discount_factors@[i - 1].discount)
                    }),
                    forall|k: int|
                        0 <= k < i ==> result@[k] == spec_term_rates(
                            self.underlying,
                            discount_factors@,
                        )[k],
                decreases n - i,
            {
                let current = self.compute_individual_term(
                    prev_discount,
                    Some(discount_factors[i].discount),
                );
                result.push(current);
                prev_discount = Some(discount_factors[i].discount);
                i = i + 1;
            }
            proof {
                assert(result@ =~= spec_term_rates(self.underlying, discount_factors@));
            }
            result
        }
    }

    /// The forward-implied price from `forward` periods into the term-rate
    /// sequence under the given spread. Fails exactly when the term-rate
    /// sequence is empty: it must be populated (by `set_term_rates` or a
    /// curve) before a forward price exists.
    pub fn compute_realized_forwards(&self, forward: usize, spread: u32) -> (r: Result<
        u32,
        &'static str,
    >)
        requires
            self.term_rate@.len() > 0 ==> forward <= self.term_rate@.len(),
        ensures
            r is Err <==> self.term_rate@.len() == 0,
            r is Ok ==> r->Ok_0 == spec_realized_forwards(*self, forward as int, spread),
    {
        if self.term_rate.len() == 0 {
            Err("Term Structure is not initialized")
        } else {
            let n = self.term_rate.len();
            let ghost target = spec_forwards_accum(
                self.underlying,
                self.term_rate@,
                spread,
                forward as int,
                F_ZERO,
                F_ONE,
            );
            let mut result = F_ZERO;
            let mut denom = F_ONE;
            let mut i: usize = forward;
            while i < n
                invariant
                    n == self.term_rate@.len(),
                    forward <= i <= n,
                    target == spec_forwards_accum(
                        self.underlying,
                        self.term_rate@,
                        spread,
                        i as int,
                        result,
                        denom,
                    ),
                decreases n - i,
            {
                let rate = self.term_rate[i];
                let effective_rate = self.underlying.get_effective_rate(fp::add(rate, spread));
                denom = fp::mul(denom, fp::add(F_ONE, effective_rate));
                let coupon_rate = self.underlying.get_effective_coupon_payment();
                let current = fp::div(coupon_rate, denom);
                result = fp::add(result, current);
                i = i + 1;
            }
            Ok(fp::add(result, fp::div(self.underlying.principal, denom)))
        }
    }

    /// The realized holding-period return, in decimal: cashflows between
    /// purchase and sale (inclusive of both dates) and their reinvestment
    /// earnings, plus the sale price, less the purchase price, over the
    /// purchase price.
    pub fn compute_realized_return(&self) -> (r: u32)
        requires
            self.underlying.wf(),
        ensures
            r == spec_compute_realized_return(*self),
    {
        let cashflows = self.underlying.cashflow_between_inclusive(
            self.purchase_date,
            self.sale_date,
        );
        let n = cashflows.len();
        let mut cashflows_sum = F_ZERO;
        let mut i: usize = 0;
        while i < n
            invariant
                n == cashflows@.len(),
                cashflows@ == spec_filtered_inclusive(
                    spec_cashflow(self.underlying),
                    self.purchase_date,
                    self.sale_date,
                ),
                0 <= i <= n,
                cashflows_sum == spec_cashflow_sum(cashflows@, i as int),
            decreases n - i,
        {
            cashflows_sum = fp::add(cashflows_sum, cashflows[i].amount);
            i = i + 1;
        }
        let reinvestment_amounts = self.underlying.reinvestment_amount_between(
            self.purchase_date,
            self.sale_date,
        );
        let m = reinvestment_amounts.len();
        let mut reinvestment_amount_sum = F_ZERO;
        let mut j: usize = 0;
        while j < m
            invariant
                m == reinvestment_amounts@.len(),
                forall|k: int|
                    0 <= k < m ==> reinvestment_amounts@[k] == spec_reinvestment_amount(
                        self.underlying,
                    ),
                0 <= j <= m,
                reinvestment_amount_sum == spec_reinvestment_sum(
                    spec_reinvestment_amount(self.underlying),
                    j as int,
                ),
            decreases m - j,
        {
            reinvestment_amount_sum = fp::add(reinvestment_amount_sum, reinvestment_amounts[j]);
            j = j + 1;
        }
        fp::div(
            fp::sub(
                fp::add(fp::add(self.sale_price, cashflows_sum), reinvestment_amount_sum),
                self.purchase_price,
            ),
            self.purchase_price,
        )
    }
}

} // verus!
