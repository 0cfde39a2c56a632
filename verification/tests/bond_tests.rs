use fixed_income::bond::create_bond;
use fixed_income::bond::create_bond_with_periodicity;
use fixed_income::bond::discount_factor;
use fixed_income::bond::Bond;
use fixed_income::bond::BondError;
use fixed_income::bond::DiscountFactor;
use fixed_income::bond::ErrorType;
use fixed_income::bond::MarketData;
use fixed_income::bond::Periodicity;
use fixed_income::date::parse_date;

fn b(x: f32) -> u32 {
    x.to_bits()
}

fn f(x: u32) -> f32 {
    f32::from_bits(x)
}

fn assert_approx(a: f32, expected: f32, eps: f32) {
    assert!(
        (a - expected).abs() <= eps,
        "value {} differs from {} by more than {}",
        a,
        expected,
        eps
    );
}

fn create_zcb_principal_maturity(
    principal: f32,
    issue_date: &str,
    mat_date: &str,
) -> Result<Bond, BondError> {
    create_bond(b(principal), issue_date, mat_date, b(0.0), "%m/%d/%Y")
}

fn create_zcb(principal: f32) -> Result<Bond, BondError> {
    create_zcb_principal_maturity(principal, "04/15/2021", "04/15/2051")
}

fn create_test_bond() -> Result<Bond, BondError> {
    create_bond(b(100.0), "04/15/2014", "05/15/2024", b(2.5), "%m/%d/%Y")
}

fn create_test_market_data() -> Vec<MarketData> {
    let rows: [(f32, f32, f32); 7] = [
        (2.875, 0.5, 101.4297),
        (2.125, 1.0, 102.0662),
        (1.625, 1.5, 102.2862),
        (0.125, 2.0, 99.9538),
        (0.250, 2.5, 100.0795),
        (0.250, 3.0, 99.7670),
        (2.250, 3.5, 106.3091),
    ];
    let mut result: Vec<MarketData> = Vec::new();
    for (coupon_rate, term, market_price) in rows {
        result.push(MarketData {
            coupon_rate: b(coupon_rate),
            term: b(term),
            market_price: b(market_price),
        });
    }
    result
}

#[test]
fn test_bond_sort() {
    let b1 = create_bond(b(100.0), "04/15/2014", "05/15/2024", b(2.5), "%m/%d/%Y");
    let b2 = create_bond(b(100.0), "03/15/2014", "05/15/2024", b(2.5), "%m/%d/%Y");
    let mut bonds: Vec<Bond> = Vec::new();
    match (b1, b2) {
        (Ok(bond1), Ok(bond2)) => {
            bonds.push(bond1);
            bonds.push(bond2);
        }
        _ => {
            panic!("Test failed.");
        }
    }
    bonds.sort_by(|x, y| x.partial_cmp(y).unwrap());
    assert_eq!(b1.unwrap(), bonds[1]);
}

#[test]
fn test_create() {
    println!("{:?}", create_test_bond());
}

#[test]
fn test_coupon_rate() {
    let b1 = create_test_bond();
    match b1 {
        Result::Ok(val) => {
            assert_eq!(f(val.coupon_payment()), 125.0);
        }
        Result::Err(_) => {
            assert_eq!("", "ABC");
        }
    }
}

#[test]
fn test_payment_intervals() {
    let b1 = create_test_bond();
    match b1 {
        Result::Ok(val) => {
            let intervals = val.periodicity();
            assert_eq!(intervals.len(), 22);
        }
        Result::Err(_) => {
            panic!("Failed to create bond.");
        }
    }
}

#[test]
fn test_cashflow() {
    let b1 = create_test_bond();
    match b1 {
        Result::Ok(val) => {
            let cashflows = val.cashflow();
            let n = cashflows.len();
            for (i, cashflow) in cashflows.iter().enumerate() {
                if i + 1 == n {
                    assert_approx(f(cashflow.amount), 225.0, f32::EPSILON);
                } else {
                    assert_approx(f(cashflow.amount), 125.0, f32::EPSILON);
                }
            }
        }
        Result::Err(_) => {
            panic!("Failed to create bond.");
        }
    }
}

#[test]
fn test_cashflow_between1() {
    let b1 = create_test_bond();
    match b1 {
        Result::Ok(val) => {
            let start_date_opt = parse_date("04/15/2014");
            let end_date_opt = parse_date("04/15/2014");
            match (start_date_opt, end_date_opt) {
                (Some(start_date), Some(end_date)) => {
                    let cashflows = val.cashflow_between(start_date, end_date);
                    assert_eq!(0, cashflows.len());
                }
                (_, _) => {
                    panic!("Failed to test cash flows");
                }
            }
        }
        Result::Err(_) => {
            panic!("Failed to create bond.")
        }
    }
}

#[test]
fn test_cashflow_between2() {
    let b1 = create_test_bond();
    match b1 {
        Result::Ok(val) => {
            let start_date_opt = parse_date("04/15/2014");
            let end_date_opt = parse_date("11/15/2014");
            match (start_date_opt, end_date_opt) {
                (Some(start_date), Some(end_date)) => {
                    let cashflows = val.cashflow_between(start_date, end_date);
                    assert_eq!(1, cashflows.len());
                    assert_approx(125.0, f(cashflows[0].amount), 1.0e-6);
                    println!("Cashflow {:?}", cashflows);
                }
                (_, _) => {
                    panic!("Failed to test cash flows");
                }
            }
        }
        Result::Err(_) => {
            panic!("Failed to create bond.")
        }
    }
}

#[test]
fn test_create_discount_factor() {
    let market_data: Vec<MarketData> = create_test_market_data();
    let discount_factor: Vec<DiscountFactor> =
        discount_factor(&market_data, Periodicity::SemiAnnual);
    assert_approx(f(discount_factor[0].discount), 0.9999231, f32::EPSILON);
    assert_approx(f(discount_factor[1].discount), 0.99941903, f32::EPSILON);
    assert_approx(f(discount_factor[2].discount), 0.9985045, f32::EPSILON);
    assert_approx(f(discount_factor[3].discount), 0.99704117, f32::EPSILON);
    assert_approx(f(discount_factor[4].discount), 0.9945582, f32::EPSILON);
    assert_approx(f(discount_factor[5].discount), 0.99019545, f32::EPSILON);
    assert_approx(f(discount_factor[6].discount), 0.9847417, f32::EPSILON);
}

#[test]
fn test_ytm_zcb() {
    let b1 = create_zcb(1000.0);
    match b1 {
        Result::Ok(val) => {
            let ytm = val.yield_to_maturity(b(50.00)).unwrap();
            assert_approx(f(ytm), 0.10239267, f32::EPSILON);
        }
        Result::Err(_) => {
            panic!("Failed to create bond.");
        }
    }
}

fn internal_yield_2() -> Vec<(fixed_income::date::Date, u32)> {
    let b1 = create_bond(b(100.00), "04/15/2021", "04/15/2051", b(6.00), "%m/%d/%Y");
    let constant_yield = b(0.2);
    match b1 {
        Result::Ok(val) => val.market_price_trajectory(constant_yield),
        Result::Err(err) => {
            panic!("Failed to create bond {:?}", err);
        }
    }
}

fn internal_yield_1() -> Vec<(fixed_income::date::Date, u32)> {
    let b1 = create_bond(b(100.00), "04/15/2021", "04/15/2041", b(6.00), "%m/%d/%Y");
    let constant_yield = b(0.20);
    match b1 {
        Result::Ok(val) => val.market_price_trajectory(constant_yield),
        Result::Err(err) => {
            panic!("Failed to create bond {:?}", err);
        }
    }
}

#[test]
fn test_fixed_yield() {
    let mut y1 = internal_yield_1();
    let y2 = internal_yield_2();
    for i in y1.len()..y2.len() {
        let new_entry = (y2[i].0, b(0.0));
        y1.push(new_entry);
    }

    for i in 0..y1.len() {
        let compare = f(y1[i].1) - f(y2[i].1);
        println!(
            "20 year - 30 year @ {:?} {:?} {:?} {:?}",
            y1[i].0,
            f(y1[i].1),
            f(y2[i].1),
            compare
        );
    }
}

#[test]
fn test_ytm_trajectory() {
    let b1 = create_zcb_principal_maturity(100.0, "04/15/2021", "04/15/2031");
    match b1 {
        Result::Ok(val) => {
            let result = val.constant_yield_price_trajectory(b(60.0)).into_iter();
            let annual_returns = result.filter(|(a, _)| a.month == 4);
            for i in annual_returns {
                println!("Price Trajectory {:?}", i);
            }
        }
        Result::Err(_) => {
            panic!("Failed to create bond")
        }
    }
}

#[test]
fn test_ytm_at_the_money_1() {
    let b1 = create_zcb_principal_maturity(100.0, "04/15/2021", "04/15/2031");
    match b1 {
        Result::Ok(val) => {
            let result = val.at_the_money_yield_trajectory(b(60.0), 2);
            assert_approx(66.45397, f(result), f32::EPSILON);
            let realized_return = val.realized_return(b(60.0), b(68.0), b(2.0));
            assert_approx(0.063570976, f(realized_return), f32::EPSILON);
        }
        Err(_) => {
            panic!("Failed to create bond");
        }
    }
}

#[test]
fn test_infinite_compounding() {
    let b1 = create_zcb_principal_maturity(100.0, "04/15/2021", "04/15/2031");
    match b1 {
        Result::Ok(val) => {
            let inf_compounded_rate = val.infinitely_compounded_rate(b(60.0));
            assert_approx(f(inf_compounded_rate), 0.05108256, f32::EPSILON);
            let mut rate_for_per = val.rate_for_periodicity(Periodicity::Quarterly, b(60.0));
            assert_approx(f(rate_for_per), 0.0514102, f32::EPSILON);
            rate_for_per = val.rate_for_periodicity(Periodicity::Annual, b(60.00));
            assert_approx(f(rate_for_per), 0.052409768, f32::EPSILON);
            rate_for_per = val.rate_for_periodicity(Periodicity::SemiAnnual, b(60.00));
            assert_approx(f(rate_for_per), 0.051740408, f32::EPSILON);
        }
        Err(_) => {
            panic!("Failed to create bond");
        }
    }
}

#[test]
fn test_discount_factor_order_sensitive() {
    // The bootstrap reads rows by position: the same rows in another order
    // give different discount factors.
    let forward = create_test_market_data();
    let mut reversed = create_test_market_data();
    reversed.reverse();
    let df_fwd = discount_factor(&forward, Periodicity::SemiAnnual);
    let df_rev = discount_factor(&reversed, Periodicity::SemiAnnual);
    assert_eq!(df_fwd.len(), df_rev.len());
    let mut differs = false;
    for i in 0..df_fwd.len() {
        if f(df_fwd[i].discount) != f(df_rev[df_rev.len() - 1 - i].discount) {
            differs = true;
        }
    }
    assert!(differs, "reordering the curve rows left every factor unchanged");
}

#[test]
fn test_discount_factor_empty() {
    let empty: Vec<MarketData> = Vec::new();
    let df = discount_factor(&empty, Periodicity::SemiAnnual);
    assert_eq!(df.len(), 0);
}

#[test]
fn test_discount_factor_terms_from_position() {
    // Term labels come from row position, not from the rows' term fields.
    let mut rows = create_test_market_data();
    for row in rows.iter_mut() {
        row.term = b(9.75);
    }
    let df = discount_factor(&rows, Periodicity::SemiAnnual);
    assert_eq!(f(df[0].term), 0.5);
    assert_eq!(f(df[1].term), 1.0);
    assert_eq!(f(df[6].term), 3.5);
}

#[test]
fn test_create_bond_errors() {
    // An unparsable date is rejected with the InvalidDate error code.
    let bad_date = create_bond(b(100.0), "04/31/2014", "05/15/2024", b(2.5), "%m/%d/%Y");
    match bad_date {
        Err(e) => assert_eq!(e.message_code, ErrorType::InvalidDate),
        Ok(_) => panic!("a nonexistent calendar day was accepted"),
    }
    // A date format other than %m/%d/%Y is rejected: callers convert first.
    let bad_format = create_bond(b(100.0), "2014-04-15", "2024-05-15", b(2.5), "%Y-%m-%d");
    assert!(bad_format.is_err());
    // Dates out of order violate the bond invariant and are rejected.
    let out_of_order = create_bond(b(100.0), "05/15/2024", "04/15/2014", b(2.5), "%m/%d/%Y");
    assert!(out_of_order.is_err());
    // The same inputs in order are accepted.
    let ok = create_bond_with_periodicity(
        b(100.0),
        "04/15/2014",
        "05/15/2024",
        b(2.5),
        b(0.01),
        Periodicity::Quarterly,
        "%m/%d/%Y",
    );
    assert!(ok.is_ok());
}

#[test]
fn test_constant_yield_trajectory_round_trip() {
    // Feeding a zero-coupon bond's yield back into the constant-yield
    // trajectory reproduces the purchase price exactly at year zero.
    let bond = create_zcb_principal_maturity(1000.0, "04/15/2021", "04/15/2051").unwrap();
    let price = b(50.0);
    let trajectory = bond.constant_yield_price_trajectory(price);
    assert_eq!(trajectory[0].1, price);
    assert_eq!(f(trajectory[0].1), 50.0);
    // Later entries compound strictly upward at the positive implied yield.
    assert!(f(trajectory[1].1) > 50.0);
}

#[test]
fn test_macaulay_duration_undefined() {
    let bond = create_test_bond().unwrap();
    assert!(bond.macaulay_duration().is_none());
}

#[test]
fn test_ytm_undefined_for_coupon_bond() {
    let bond = create_test_bond().unwrap();
    assert!(bond.yield_to_maturity(b(100.0)).is_none());
    assert!(!bond.is_zero_coupon_bond());
    let zcb = create_zcb(100.0).unwrap();
    assert!(zcb.is_zero_coupon_bond());
}

#[test]
fn test_term_remaining() {
    let bond = create_bond(b(100.0), "11/16/1992", "11/15/2022", b(7.625), "%m/%d/%Y").unwrap();
    let purchase_date = parse_date("11/13/2020").unwrap();
    assert_approx(f(bond.term_remaining(purchase_date)), 2.0, f32::EPSILON);
}

#[test]
fn test_reinvestment_amounts() {
    let bond = create_bond_with_periodicity(
        b(100.0),
        "11/15/2012",
        "11/15/2022",
        b(0.07625),
        b(0.05),
        Periodicity::SemiAnnual,
        "%m/%d/%Y",
    )
    .unwrap();
    let start = parse_date("11/15/2020").unwrap();
    let end = parse_date("05/15/2021").unwrap();
    // Two cashflows fall in [start, end]; only the first has been reinvested.
    let amounts = bond.reinvestment_amount_between(start, end);
    assert_eq!(amounts.len(), 1);
    assert_approx(f(amounts[0]), 100.0 * (0.07625 / 2.0) * 0.05 / 2.0, 1.0e-6);
}

#[test]
fn test_cashflow_sum() {
    // The sum of the non-final cashflow amounts equals the coupon payment
    // taken once per interior period, and the final cashflow repays the
    // principal on top of one coupon.
    let bond = create_test_bond().unwrap();
    let cashflows = bond.cashflow();
    let n = cashflows.len();
    let mut interior_sum = 0.0f32;
    for cf in cashflows.iter().take(n - 1) {
        interior_sum += f(cf.amount);
    }
    assert_eq!(interior_sum, f(bond.coupon_payment()) * (n as f32 - 1.0));
    assert_eq!(f(cashflows[n - 1].amount), f(bond.coupon_payment()) + 100.0);
}

#[test]
fn test_discount_factor_equality_by_term() {
    // Discount factors compare by term alone; the discount plays no part.
    let a = DiscountFactor { term: b(0.5), discount: b(0.99) };
    let c = DiscountFactor { term: b(0.5), discount: b(0.42) };
    let d = DiscountFactor { term: b(1.0), discount: b(0.99) };
    assert!(a == c);
    assert!(a != d);
}

#[test]
fn test_schedule_and_cashflow_lengths() {
    // The schedule includes the issue date; the cashflows do not: one entry
    // more, and the last schedule date is the first past maturity.
    let bond = create_test_bond().unwrap();
    let schedule = bond.periodicity();
    let cashflows = bond.cashflow();
    assert_eq!(schedule.len(), cashflows.len() + 1);
    let maturity = parse_date("05/15/2024").unwrap();
    assert!(maturity.lt(schedule[schedule.len() - 1]));
    assert!(schedule[schedule.len() - 2].le(maturity));
    for i in 1..schedule.len() {
        assert!(schedule[i - 1].lt(schedule[i]));
    }
}
