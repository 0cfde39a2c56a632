use fixed_income::date::Date;
use fixed_income::interest_rate_swap::price_irs;
use fixed_income::interest_rate_swap::price_irs_at;
use fixed_income::interest_rate_swap::AccountingConvention;
use fixed_income::interest_rate_swap::InterestRateData;
use fixed_income::interest_rate_swap::IRS;
use fixed_income::rates::OvernightRateType;

fn b(x: f32) -> u32 {
    x.to_bits()
}

fn f(x: u32) -> f32 {
    f32::from_bits(x)
}

fn assert_approx(a: f32, expected: f32, eps: f32) {
    assert!(
        (a - expected).abs() <= eps,
        "value {} differs from {} by more than {}",
        a,
        expected,
        eps
    );
}

fn year_of_daily_sofr() -> Vec<InterestRateData> {
    let mut interest_rate_data = Vec::new();
    let mut start_date = Date { year: 2024, month: 1, day: 1 };
    let mut v1: u32 = 0;
    let mut v2: u32 = 0;
    let mut v3: u32 = 0;
    for day in 1..366 {
        if day >= 1 && day <= 5 {
            let ir = InterestRateData {
                time: start_date,
                rate: b(0.1),
                overnight_rate_type: OvernightRateType::SOFR,
            };
            v1 = v1 + 1;
            interest_rate_data.push(ir);
        } else if day > 5 && day <= 175 {
            let ir = InterestRateData {
                time: start_date,
                rate: b(0.5),
                overnight_rate_type: OvernightRateType::SOFR,
            };
            v2 = v2 + 1;
            interest_rate_data.push(ir);
        } else if day > 175 && day <= 366 {
            let ir = InterestRateData {
                time: start_date,
                rate: b(0.01),
                overnight_rate_type: OvernightRateType::SOFR,
            };
            v3 = v3 + 1;
            interest_rate_data.push(ir);
        }
        start_date = start_date.next_day();
    }
    interest_rate_data.sort_by(|x, y| x.partial_cmp(y).unwrap());
    println!("5 : {:?}, 170 : {:?}, 190 : {:?}", v1, v2, v3);
    interest_rate_data
}

#[test]
fn test_price_irs() {
    let interest_rate_data = year_of_daily_sofr();
    let irs = IRS {
        face_value: b(100000000.00),
        fixed_rate: b(0.1120),
        overnight_rate_type: OvernightRateType::SOFR,
        time: b(2.0),
        accounting_convention: AccountingConvention::AC360,
    };
    let valuation = price_irs_at(&irs, &interest_rate_data, b(365.0)).unwrap();
    assert_approx(f(valuation), -113281.55, 1.0);
}

#[test]
fn interest_rate_swap_test_price_irs() {
    let interest_rate_data = year_of_daily_sofr();
    let irs = IRS {
        face_value: b(100000000.00),
        fixed_rate: b(0.1120),
        overnight_rate_type: OvernightRateType::SOFR,
        time: b(2.0),
        accounting_convention: AccountingConvention::AC360,
    };
    let valuation = price_irs(&irs, &interest_rate_data, b(365.0)).unwrap();
    assert_approx(f(valuation), 129452.0, 1.0);
}

#[test]
fn test_price_irs_0() {
    let mut interest_rate_data = Vec::new();
    let mut start_date = Date { year: 2024, month: 1, day: 1 };
    let mut v1: u32 = 0;
    for _day in 0..10 {
        let ir = InterestRateData {
            time: start_date,
            rate: b(0.1120),
            overnight_rate_type: OvernightRateType::SOFR,
        };
        v1 = v1 + 1;
        interest_rate_data.push(ir);
        start_date = start_date.next_day();
    }
    interest_rate_data.sort_by(|x, y| x.partial_cmp(y).unwrap());
    let irs = IRS {
        face_value: b(100000000.00),
        fixed_rate: b(0.1120),
        overnight_rate_type: OvernightRateType::SOFR,
        time: b(2.0),
        accounting_convention: AccountingConvention::AC360,
    };
    let valuation = price_irs_at(&irs, &interest_rate_data, b(1.0)).unwrap();
    assert_approx(f(valuation), 0.00, 1.0);
}

#[test]
fn test_price_irs_rate_type_mismatch() {
    // A SONIA observation in a SOFR pricing call is caller-side data
    // corruption: both pricers refuse it.
    let observations = vec![
        InterestRateData {
            time: Date { year: 2024, month: 1, day: 1 },
            rate: b(0.1),
            overnight_rate_type: OvernightRateType::SOFR,
        },
        InterestRateData {
            time: Date { year: 2024, month: 1, day: 2 },
            rate: b(0.1),
            overnight_rate_type: OvernightRateType::SONIA,
        },
    ];
    let irs = IRS {
        face_value: b(1000000.0),
        fixed_rate: b(0.1),
        overnight_rate_type: OvernightRateType::SOFR,
        time: b(1.0),
        accounting_convention: AccountingConvention::AC365,
    };
    assert!(price_irs(&irs, &observations, b(365.0)).is_err());
    assert!(price_irs_at(&irs, &observations, b(365.0)).is_err());
}

#[test]
fn test_price_irs_ac365() {
    // The two conventions use structurally different fixed legs: under AC365
    // the fixed leg is gross of the face value, so an otherwise-even swap
    // prices far below zero.
    let observations = vec![InterestRateData {
        time: Date { year: 2024, month: 1, day: 1 },
        rate: b(0.5),
        overnight_rate_type: OvernightRateType::SOFR,
    }];
    let irs = IRS {
        face_value: b(100.0),
        fixed_rate: b(0.5),
        overnight_rate_type: OvernightRateType::SOFR,
        time: b(1.0),
        accounting_convention: AccountingConvention::AC365,
    };
    let valuation = f(price_irs(&irs, &observations, b(1.0)).unwrap());
    // floating: 100 * (1 + 0.5/36500) - 100; fixed: 100 * (1 + 0.005/365).
    let floating = 100.0f32 * (1.0 + 0.5 / 36500.0) - 100.0;
    let fixed = 100.0f32 * (1.0 + (0.5 / 100.0) * 1.0 / 365.0);
    assert_approx(valuation, floating - fixed, 1.0e-4);
}
