use fixed_income::bond::create_bond;
use fixed_income::bond::create_bond_with_periodicity;
use fixed_income::bond::discount_factor;
use fixed_income::bond::Bond;
use fixed_income::bond::BondError;
use fixed_income::bond::DiscountFactor;
use fixed_income::bond::MarketData;
use fixed_income::bond::Periodicity;
use fixed_income::date::parse_date;
use fixed_income::pandl::BondTransaction;

fn b(x: f32) -> u32 {
    x.to_bits()
}

fn f(x: u32) -> f32 {
    f32::from_bits(x)
}

fn assert_approx(a: f32, expected: f32, eps: f32) {
    assert!(
        (a - expected).abs() <= eps,
        "value {} differs from {} by more than {}",
        a,
        expected,
        eps
    );
}

fn create_test_bond(interest: f32) -> Result<Bond, BondError> {
    create_bond_with_periodicity(
        b(100.0),
        "11/15/2012",
        "11/15/2022",
        b(0.07625),
        b(interest),
        Periodicity::SemiAnnual,
        "%m/%d/%Y",
    )
}

fn create_test_market_data() -> Vec<MarketData> {
    let rows: [(f32, f32, f32); 7] = [
        (2.875, 0.5, 101.4297),
        (2.125, 1.0, 102.0662),
        (1.625, 1.5, 102.2862),
        (0.125, 2.0, 99.9538),
        (0.250, 2.5, 100.0795),
        (0.250, 3.0, 99.7670),
        (2.250, 3.5, 106.3091),
    ];
    let mut result: Vec<MarketData> = Vec::new();
    for (coupon_rate, term, market_price) in rows {
        result.push(MarketData {
            coupon_rate: b(coupon_rate),
            term: b(term),
            market_price: b(market_price),
        });
    }
    result
}

#[test]
fn test_realized_return() {
    let b1 = create_test_bond(0.00);
    let p_date_opt = parse_date("11/01/2020");
    let s_date_opt = parse_date("4/15/2021");
    match (b1, p_date_opt, s_date_opt) {
        (Result::Ok(val), Some(purchase_date), Some(sale_date)) => {
            let bond_transaction = BondTransaction {
                underlying: val,
                purchase_date,
                purchase_price: b(114.8765),
                sale_date,
                sale_price: b(111.3969),
                term_rate: Vec::new(),
            };
            assert_approx(f(bond_transaction.compute_realized_return()), 0.002897, 0.0001);
        }
        (_, _, _) => {
            panic!("Failed testing realized return")
        }
    }
}

#[test]
fn test_realized_return_2() {
    let b1 = create_test_bond(0.05);
    let p_date_opt = parse_date("11/15/2020");
    let s_date_opt = parse_date("5/15/2021");
    match (b1, p_date_opt, s_date_opt) {
        (Result::Ok(val), Some(purchase_date), Some(sale_date)) => {
            let bond_transaction = BondTransaction {
                underlying: val,
                purchase_date,
                purchase_price: b(114.8765),
                sale_date,
                sale_price: b(108.00),
                term_rate: Vec::new(),
            };
            assert_approx(f(bond_transaction.compute_realized_return()), 0.0073, 0.0001);
        }
        (_, _, _) => {
            panic!("Failed testing realized return")
        }
    }
}

#[test]
fn test_forward_rates() {
    let market_data: Vec<MarketData> = create_test_market_data();
    let mut discount_factor: Vec<DiscountFactor> =
        discount_factor(&market_data, Periodicity::SemiAnnual);
    let b1 = create_bond(b(1000.0), "04/15/2021", "04/15/2051", b(0.0), "%m/%d/%Y").unwrap();
    let bt = BondTransaction {
        underlying: b1,
        purchase_date: parse_date("11/13/2020").unwrap(),
        purchase_price: b(0.0),
        sale_date: parse_date("05/14/2021").unwrap(),
        sale_price: b(0.0),
        term_rate: Vec::new(),
    };
    discount_factor.sort_by(|x, y| x.partial_cmp(y).unwrap());
    let result = bt.compute_term_rate(&discount_factor);
    assert_approx(f(result[0]), 0.00015377998, 1.0e-7);
    assert_approx(f(result[1]), 0.001008749, 1.0e-7);
    assert_approx(f(result[2]), 0.00183177, 1.0e-7);
    assert_approx(f(result[3]), 0.0029354095, 1.0e-7);
    assert_approx(f(result[4]), 0.004992962, 1.0e-7);
    assert_approx(f(result[5]), 0.008811951, 1.0e-7);
    assert_approx(f(result[6]), 0.01107645, 1.0e-7);
}

#[test]
fn test_realized_forwards() {
    let purchase_date = parse_date("11/13/2020").unwrap();
    let b1 = create_bond(b(100.0), "11/16/1992", "11/15/2022", b(7.625), "%m/%d/%Y").unwrap();
    let spread = b(-0.000116);
    let mut bt = BondTransaction {
        underlying: b1,
        purchase_date,
        purchase_price: b(114.87654),
        sale_date: parse_date("05/14/2021").unwrap(),
        sale_price: b(114.87654),
        term_rate: Vec::new(),
    };
    let market_data: Vec<MarketData> = create_test_market_data();
    let term_remaining = b1.term_remaining(purchase_date);
    assert_approx(f(term_remaining), 2.0, f32::EPSILON);
    let result: Vec<u32> = vec![b(0.001013), b(0.001746), b(0.002429), b(0.002185)];
    bt.set_term_rates(&result);
    assert_approx(111.11555, f(bt.compute_realized_forwards(1, spread).unwrap()), 0.001);
    let discount_factor: Vec<DiscountFactor> =
        discount_factor(&market_data, Periodicity::SemiAnnual);
    let mut relevant_discount_factors = Vec::new();
    for df in discount_factor {
        if f(df.term) < f(term_remaining) {
            relevant_discount_factors.push(df);
        }
    }
    let result = bt.compute_term_rate(&relevant_discount_factors);
    bt.set_term_rates(&result);
    assert_approx(111.29847, f(bt.compute_realized_forwards(0, spread).unwrap()), 0.001);
}

#[test]
fn test_realized_forwards_empty_term_rates() {
    // A transaction whose term-rate sequence was never populated has no
    // forward price: the computation fails rather than producing a number.
    let b1 = create_bond(b(100.0), "11/16/1992", "11/15/2022", b(7.625), "%m/%d/%Y").unwrap();
    let bt = BondTransaction {
        underlying: b1,
        purchase_date: parse_date("11/13/2020").unwrap(),
        purchase_price: b(114.87654),
        sale_date: parse_date("05/14/2021").unwrap(),
        sale_price: b(114.87654),
        term_rate: Vec::new(),
    };
    assert!(bt.compute_realized_forwards(0, b(-0.000116)).is_err());
}

#[test]
fn test_set_term_rates_replaces() {
    let b1 = create_bond(b(100.0), "11/16/1992", "11/15/2022", b(7.625), "%m/%d/%Y").unwrap();
    let mut bt = BondTransaction {
        underlying: b1,
        purchase_date: parse_date("11/13/2020").unwrap(),
        purchase_price: b(114.87654),
        sale_date: parse_date("05/14/2021").unwrap(),
        sale_price: b(114.87654),
        term_rate: vec![b(0.5), b(0.25)],
    };
    let rates = vec![b(0.001013), b(0.001746)];
    bt.set_term_rates(&rates);
    assert_eq!(bt.term_rate, rates);
}

#[test]
fn test_compute_term_rate_empty_curve() {
    let b1 = create_bond(b(100.0), "11/16/1992", "11/15/2022", b(7.625), "%m/%d/%Y").unwrap();
    let bt = BondTransaction {
        underlying: b1,
        purchase_date: parse_date("11/13/2020").unwrap(),
        purchase_price: b(0.0),
        sale_date: parse_date("05/14/2021").unwrap(),
        sale_price: b(0.0),
        term_rate: Vec::new(),
    };
    let empty: Vec<DiscountFactor> = Vec::new();
    assert_eq!(bt.compute_term_rate(&empty).len(), 0);
}
