use fixed_income::date::parse_date;
use fixed_income::rates::discount_factors;
use fixed_income::rates::NextSettlementDate;
use fixed_income::bond::Periodicity;

fn b(x: f32) -> u32 {
    x.to_bits()
}

fn assert_approx64(a: f64, expected: f64, eps: f64) {
    assert!(
        (a - expected).abs() <= eps,
        "value {} differs from {} by more than {}",
        a,
        expected,
        eps
    );
}

#[test]
fn test_next_settlement_date() {
    let s1 = NextSettlementDate {
        start_date: parse_date("05/14/2021").unwrap(),
        term: b(0.5),
        next_settlement_date: parse_date("11/14/2021").unwrap(),
    };
    let s2 = NextSettlementDate {
        start_date: parse_date("05/14/2021").unwrap(),
        term: b(0.5),
        next_settlement_date: parse_date("05/14/2022").unwrap(),
    };
    let mut calendar = Vec::new();
    calendar.push(s1);
    calendar.push(s2);
    let map = s1.get_settlement_dates(calendar);
    println!("Map {:?}", map);
}

#[test]
fn test_settlement_date_grouping() {
    // The type's equality calls two rows equal when their start dates match
    // and their terms differ by more than the machine epsilon; rows with the
    // same term therefore open separate groups.
    let s1 = NextSettlementDate {
        start_date: parse_date("05/14/2021").unwrap(),
        term: b(0.5),
        next_settlement_date: parse_date("11/14/2021").unwrap(),
    };
    let s2 = NextSettlementDate {
        start_date: parse_date("05/14/2021").unwrap(),
        term: b(1.0),
        next_settlement_date: parse_date("05/14/2022").unwrap(),
    };
    let s3 = NextSettlementDate {
        start_date: parse_date("05/14/2021").unwrap(),
        term: b(0.5),
        next_settlement_date: parse_date("11/15/2021").unwrap(),
    };
    let groups = s1.get_settlement_dates(vec![s1, s2, s3]);
    // s1 opens a group; s2 (term far from 0.5) joins it under the type's
    // equality; s3 (equal term) opens its own group.
    assert_eq!(groups.len(), 2);
    assert_eq!(groups[0].1.len(), 2);
    assert_eq!(groups[1].1.len(), 1);
}

#[test]
fn test_discount_factors_stub() {
    let out = discount_factors(vec![b(1.0), b(2.0)], Periodicity::SemiAnnual, b(360.0), b(1.0));
    assert_eq!(out.len(), 0);
}

fn test_rate_generated(
    coupon_payment: f64,
    face_value: f64,
    term_rate: f64,
    terms: i32,
    target: f64,
) -> f64 {
    let mut result = 0.0;
    let mut denom = 1.0;
    for _term in 0..terms {
        denom = denom * (1.0 + term_rate / 2.0);
        result += coupon_payment / denom;
    }
    result += face_value / denom;
    result - target
}

#[derive(PartialEq)]
enum Sign {
    POSITIVE,
    NEGATIVE,
}

fn sign(test: f64) -> Sign {
    if test < 0.0 {
        Sign::NEGATIVE
    } else {
        Sign::POSITIVE
    }
}

#[test]
fn test_rates_ytd() {
    let target = 111.3969;
    let mut iter = 1;
    let max_iter = 100;
    let mut x;
    let mut low = 0.00;
    let mut high = 0.01;
    let mut current = 0.0;
    let init_a = test_rate_generated(3.8125, 100.00, low, 3, target);
    let init_b = test_rate_generated(3.8125, 100.00, high, 3, target);
    while iter < max_iter {
        println!("Current {:?}", current);
        current = (low + high) / 2.0;
        x = test_rate_generated(3.8125, 100.00, current, 3, target);
        println!("{:?} : {:?} : {:?} : {:?}", current, x, init_a, init_b);
        if high - low / 2.0 < f64::EPSILON {
            println!("{:?}", current);
            break;
        }
        if sign(x) == sign(init_a) {
            low = current;
        } else {
            high = current;
        }
        iter = iter + 1;
    }
    assert_approx64(0.00025155303361024117, current, 1.0e-12);
}
