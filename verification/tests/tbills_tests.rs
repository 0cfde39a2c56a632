use fixed_income::date::parse_date;
use fixed_income::tbills::TBills;
use fixed_income::tbills::TimeIntervalType;

fn b(x: f32) -> u32 {
    x.to_bits()
}

fn f(x: u32) -> f32 {
    f32::from_bits(x)
}

fn assert_approx(a: f32, expected: f32, eps: f32) {
    assert!(
        (a - expected).abs() <= eps,
        "value {} differs from {} by more than {}",
        a,
        expected,
        eps
    );
}

#[test]
fn test_simple_price() {
    let i = parse_date("01/13/2025").unwrap();
    let m = parse_date("04/14/2025").unwrap();
    let v = TBills {
        issue_date: i,
        face_value: b(1000.0),
        time_interval_type: TimeIntervalType::Weeks,
        discount_rate: b(0.145),
        time: b(26.0),
        maturity_date: m,
    };
    assert_approx(999.27, f(v.valuation().unwrap()), 0.01);
}

#[test]
fn test_simple_price_2() {
    let i = parse_date("01/13/2025").unwrap();
    let m = parse_date("04/14/2025").unwrap();
    let v = TBills {
        issue_date: i,
        face_value: b(1000.0),
        time_interval_type: TimeIntervalType::Days,
        discount_rate: b(0.145),
        time: b(26.0 * 7.0),
        maturity_date: m,
    };
    assert_approx(999.27, f(v.valuation().unwrap()), 0.01);
}

#[test]
fn test_simple_price_3() {
    let i = parse_date("01/13/2025").unwrap();
    let m = parse_date("04/14/2025").unwrap();
    let v = TBills {
        issue_date: i,
        face_value: b(1000.0),
        time_interval_type: TimeIntervalType::Months,
        discount_rate: b(0.145),
        time: b(26.0 * 7.0 / 30.0),
        maturity_date: m,
    };
    assert_eq!(true, v.is_time_valid());
    assert_approx(999.27, f(v.valuation().unwrap()), 0.01);
}

#[test]
fn test_valuation_rejects_reversed_dates() {
    // A bill whose maturity does not fall after its issue date has no value.
    let i = parse_date("04/14/2025").unwrap();
    let m = parse_date("01/13/2025").unwrap();
    let v = TBills {
        issue_date: i,
        face_value: b(1000.0),
        time_interval_type: TimeIntervalType::Weeks,
        discount_rate: b(0.145),
        time: b(26.0),
        maturity_date: m,
    };
    assert_eq!(false, v.is_time_valid());
    assert!(v.valuation().is_none());
}

#[test]
fn test_normalize_days() {
    let i = parse_date("01/13/2025").unwrap();
    let m = parse_date("04/14/2025").unwrap();
    let mut v = TBills {
        issue_date: i,
        face_value: b(1000.0),
        time_interval_type: TimeIntervalType::Weeks,
        discount_rate: b(0.145),
        time: b(26.0),
        maturity_date: m,
    };
    assert_eq!(f(v.normalize_days()), 182.0);
    v.time_interval_type = TimeIntervalType::Days;
    assert_eq!(f(v.normalize_days()), 26.0);
    v.time_interval_type = TimeIntervalType::Months;
    assert_eq!(f(v.normalize_days()), 780.0);
}
