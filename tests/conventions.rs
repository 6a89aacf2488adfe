use yearfrac::{is_end_of_month, is_leap_year, Date, DayCountConvention, DayCountConventionError, YearFraction};

const ALL: [DayCountConvention; 5] = [
    DayCountConvention::US30360,
    DayCountConvention::ActAct,
    DayCountConvention::Act360,
    DayCountConvention::Act365,
    DayCountConvention::EU30360,
];

fn ymd(year: i32, month: u32, day: u32) -> Date {
    Date::new(year, month, day).unwrap()
}

fn value(yf: YearFraction) -> f64 {
    let v = yf.numerator as f64 / (yf.basis_days as f64 / yf.basis_years as f64);
    if yf.negative {
        -v
    } else {
        v
    }
}

fn parts(yf: YearFraction) -> (i64, i64, i64) {
    (yf.numerator, yf.basis_days, yf.basis_years)
}

#[test]
fn leap_years() {
    assert!(!is_leap_year(1900));
    assert!(is_leap_year(2000));
    assert!(is_leap_year(2024));
    assert!(!is_leap_year(2023));
    assert!(is_leap_year(0));
    assert!(is_leap_year(-4));
    assert!(!is_leap_year(-100));
    assert!(is_leap_year(-400));
}

#[test]
fn end_of_month_days() {
    assert!(is_end_of_month(28, 2, 1978));
    assert!(!is_end_of_month(28, 2, 2000));
    assert!(is_end_of_month(29, 2, 2000));
    assert!(is_end_of_month(30, 4, 2021));
    assert!(!is_end_of_month(31, 4, 2021));
    assert!(is_end_of_month(31, 1, 2021));
    assert!(!is_end_of_month(30, 1, 2021));
    assert!(!is_end_of_month(28, 13, 2023));
    assert!(!is_end_of_month(31, 0, 2021));
}

#[test]
fn from_int_rejects_other_codes() {
    assert_eq!(
        DayCountConvention::from_int(5),
        Err(DayCountConventionError::InvalidValue { val: "5".to_string() })
    );
    assert_eq!(
        DayCountConvention::from_int(42),
        Err(DayCountConventionError::InvalidValue { val: "42".to_string() })
    );
    assert_eq!(
        DayCountConvention::from_int(255),
        Err(DayCountConventionError::InvalidValue { val: "255".to_string() })
    );
}

#[test]
fn from_str_rejects_other_names() {
    assert_eq!(
        DayCountConvention::from_str("bogus"),
        Err(DayCountConventionError::InvalidValue { val: "bogus".to_string() })
    );
    assert!(DayCountConvention::from_str("ACT/ACT").is_err());
    assert!(DayCountConvention::from_str(" act360").is_err());
    assert!(DayCountConvention::from_str("act36").is_err());
    assert!(DayCountConvention::from_str("").is_err());
}

#[test]
fn selectors_pick_distinct_conventions() {
    let names = ["nasd30/360", "act/act", "act360", "act365", "eur30/360"];
    for code in 0u8..5 {
        let by_code = DayCountConvention::from_int(code).unwrap();
        let by_name = DayCountConvention::from_str(names[code as usize]).unwrap();
        assert_eq!(by_code, by_name);
        assert_eq!(by_code, ALL[code as usize]);
        for other in 0u8..5 {
            if other != code {
                assert_ne!(by_code, DayCountConvention::from_int(other).unwrap());
            }
        }
    }
}

#[test]
fn golden_values_1978_exact() {
    let start = ymd(1978, 2, 28);
    let end = ymd(2020, 5, 17);
    assert_eq!(parts(DayCountConvention::US30360.yearfrac(start, end)), (15197, 360, 1));
    assert_eq!(parts(DayCountConvention::ActAct.yearfrac(start, end)), (15419, 15706, 43));
    assert_eq!(parts(DayCountConvention::Act360.yearfrac(start, end)), (15419, 360, 1));
    assert_eq!(parts(DayCountConvention::Act365.yearfrac(start, end)), (15419, 365, 1));
    assert_eq!(parts(DayCountConvention::EU30360.yearfrac(start, end)), (15199, 360, 1));
}

#[test]
fn golden_values_1993_exact() {
    let start = ymd(1993, 12, 2);
    let end = ymd(2022, 4, 18);
    assert_eq!(parts(DayCountConvention::US30360.yearfrac(start, end)), (10216, 360, 1));
    assert_eq!(parts(DayCountConvention::ActAct.yearfrac(start, end)), (10364, 10957, 30));
    assert_eq!(parts(DayCountConvention::Act360.yearfrac(start, end)), (10364, 360, 1));
    assert_eq!(parts(DayCountConvention::Act365.yearfrac(start, end)), (10364, 365, 1));
    assert_eq!(parts(DayCountConvention::EU30360.yearfrac(start, end)), (10216, 360, 1));
}

#[test]
fn reversed_arguments_give_same_fraction() {
    let start = ymd(1978, 2, 28);
    let end = ymd(2020, 5, 17);
    for c in ALL {
        assert_eq!(c.yearfrac(start, end), c.yearfrac(end, start));
        assert_eq!(value(c.yearfrac(start, end)), value(c.yearfrac(end, start)));
    }
}

#[test]
fn symmetry_on_month_ends() {
    let pairs = [
        (ymd(2021, 1, 31), ymd(2021, 3, 31)),
        (ymd(2020, 2, 29), ymd(2021, 2, 28)),
        (ymd(2019, 12, 1), ymd(2020, 3, 1)),
        (ymd(1999, 8, 30), ymd(2003, 8, 31)),
    ];
    for (a, b) in pairs {
        for c in ALL {
            assert_eq!(c.yearfrac(a, b), c.yearfrac(b, a));
        }
    }
}

#[test]
fn zero_on_equal_dates() {
    for d in [ymd(2020, 2, 29), ymd(2021, 1, 31), ymd(1978, 2, 28)] {
        for c in ALL {
            let yf = c.yearfrac(d, d);
            assert_eq!(yf.numerator, 0);
            assert!(yf.basis_days > 0 && yf.basis_years > 0);
            assert_eq!(value(yf), 0.0);
        }
    }
}

#[test]
fn signed_follows_order() {
    let early = ymd(1993, 12, 2);
    let late = ymd(2022, 4, 18);
    for c in ALL {
        let back = c.yearfrac_signed(late, early);
        let forth = c.yearfrac_signed(early, late);
        assert!(back.negative);
        assert!(!forth.negative);
        assert_eq!(value(back), -value(forth));
        assert!(value(back) < 0.0);
        assert_eq!(parts(back), parts(c.yearfrac(early, late)));
    }
}

#[test]
fn signed_zero_span_under_thirty_360() {
    let a = ymd(2021, 1, 31);
    let b = ymd(2021, 1, 30);
    let yf = DayCountConvention::EU30360.yearfrac_signed(a, b);
    assert!(yf.negative);
    assert_eq!(yf.numerator, 0);
    assert_eq!(value(yf), 0.0);
}

#[test]
fn days360_formula() {
    let c = DayCountConvention::US30360;
    assert_eq!(c.days360(30, 1, 2020, 1, 3, 2021), 391);
    assert_eq!(c.days360(15, 6, 2021, 15, 6, 2021), 0);
    assert_eq!(c.days360(1, 12, 2021, 30, 1, 2021), -301);
}

#[test]
fn nasd360_month_ends() {
    let c = DayCountConvention::US30360;
    assert_eq!(c.nasd360(ymd(2021, 2, 28), ymd(2022, 2, 28), 0, true), 360);
    assert_eq!(c.nasd360(ymd(2021, 1, 30), ymd(2021, 3, 31), 0, true), 60);
    assert_eq!(c.nasd360(ymd(2021, 1, 15), ymd(2021, 3, 31), 0, true), 76);
    assert_eq!(c.nasd360(ymd(2021, 1, 31), ymd(2021, 2, 28), 0, true), 28);
    assert_eq!(c.nasd360(ymd(2020, 2, 29), ymd(2020, 3, 31), 0, true), 31);
    assert_eq!(c.nasd360(ymd(2021, 1, 15), ymd(2021, 2, 28), 0, true), 43);
    assert_eq!(c.nasd360(ymd(2021, 1, 15), ymd(2021, 2, 28), 3, true), 45);
    assert_eq!(c.nasd360(ymd(2021, 2, 28), ymd(2021, 3, 15), 0, true), 15);
    assert_eq!(c.nasd360(ymd(2021, 2, 28), ymd(2021, 3, 15), 0, false), 17);
}

#[test]
fn euro360_month_ends() {
    let c = DayCountConvention::EU30360;
    assert_eq!(c.euro360(ymd(2021, 1, 31), ymd(2021, 3, 31)), 60);
    assert_eq!(c.euro360(ymd(2021, 2, 28), ymd(2021, 3, 31)), 32);
    assert_eq!(c.euro360(ymd(2021, 1, 30), ymd(2021, 1, 31)), 0);
}

#[test]
fn actual_days() {
    let c = DayCountConvention::Act365;
    assert_eq!(c.diff_dts(ymd(2020, 1, 1), ymd(2021, 1, 1)), 366);
    assert_eq!(c.diff_dts(ymd(2021, 1, 1), ymd(2022, 1, 1)), 365);
    assert_eq!(c.diff_dts(ymd(2021, 2, 28), ymd(2021, 3, 1)), 1);
}

#[test]
fn actual_actual_basis() {
    let c = DayCountConvention::ActAct;
    assert_eq!(c.basis(ymd(2020, 1, 5), ymd(2020, 11, 5)), (366, 1));
    assert_eq!(c.basis(ymd(2021, 1, 5), ymd(2021, 11, 5)), (365, 1));
    assert_eq!(c.basis(ymd(2019, 12, 1), ymd(2020, 3, 1)), (366, 1));
    assert_eq!(c.basis(ymd(2019, 12, 1), ymd(2020, 2, 28)), (365, 1));
    assert_eq!(c.basis(ymd(2019, 12, 1), ymd(2020, 2, 29)), (366, 1));
    assert_eq!(c.basis(ymd(2020, 1, 15), ymd(2021, 1, 10)), (366, 1));
    assert_eq!(c.basis(ymd(2020, 3, 1), ymd(2021, 2, 1)), (365, 1));
    assert_eq!(c.basis(ymd(2019, 1, 1), ymd(2021, 6, 1)), (1096, 3));
    assert_eq!(c.basis(ymd(2019, 6, 1), ymd(2020, 7, 1)), (731, 2));
}

#[test]
fn fixed_bases() {
    let a = ymd(2019, 1, 1);
    let b = ymd(2021, 6, 1);
    assert_eq!(DayCountConvention::US30360.basis(a, b), (360, 1));
    assert_eq!(DayCountConvention::Act360.basis(a, b), (360, 1));
    assert_eq!(DayCountConvention::EU30360.basis(a, b), (360, 1));
    assert_eq!(DayCountConvention::Act365.basis(a, b), (365, 1));
}

#[test]
fn date_validation() {
    assert!(Date::new(2023, 2, 29).is_none());
    assert!(Date::new(2024, 2, 29).is_some());
    assert!(Date::new(2021, 0, 1).is_none());
    assert!(Date::new(2021, 13, 1).is_none());
    assert!(Date::new(2021, 4, 31).is_none());
    assert!(Date::new(2021, 1, 0).is_none());
    assert!(Date::new(262143, 1, 1).is_none());
    assert!(Date::new(-262144, 1, 1).is_none());
    assert!(Date::new(262142, 12, 31).is_some());
    assert!(Date::new(-262143, 1, 1).is_some());
    let d = ymd(1978, 2, 28);
    assert_eq!((d.year(), d.month(), d.day()), (1978, 2, 28));
}

#[test]
fn date_order_and_day_count() {
    assert!(ymd(1978, 2, 28).is_before(&ymd(1978, 3, 1)));
    assert!(!ymd(1978, 3, 1).is_before(&ymd(1978, 2, 28)));
    assert!(!ymd(1978, 3, 1).is_before(&ymd(1978, 3, 1)));
    assert_eq!(ymd(1970, 1, 1).days_from_ce(), 719163);
    assert_eq!(ymd(1, 1, 1).days_from_ce(), 1);
    assert_eq!(ymd(0, 1, 1).days_from_ce(), -365);
}
