use gh_lens::daterange::{get_monthly_date_ranges, Date, InvalidRangeError};

fn ymd(year: i64, month: u8, day: u8) -> Date {
    Date::new(year, month, day)
}

#[test]
fn test_get_monthly_date_ranges_ok() {
    struct Case<'a> {
        name: &'a str,
        from: Date,
        to: Date,
        want: Vec<(Date, Date)>,
    }
    let cases = &[
        Case {
            name: "a month",
            from: ymd(2024, 10, 1),
            to: ymd(2024, 10, 31),
            want: vec![(ymd(2024, 10, 1), ymd(2024, 10, 31))],
        },
        Case {
            name: "a few month",
            from: ymd(2024, 10, 1),
            to: ymd(2024, 11, 30),
            want: vec![
                (ymd(2024, 10, 1), ymd(2024, 10, 31)),
                (ymd(2024, 11, 1), ymd(2024, 11, 30)),
            ],
        },
        Case {
            name: "a few months across the year",
            from: ymd(2024, 12, 1),
            to: ymd(2025, 1, 31),
            want: vec![
                (ymd(2024, 12, 1), ymd(2024, 12, 31)),
                (ymd(2025, 1, 1), ymd(2025, 1, 31)),
            ],
        },
    ];
    for case in cases {
        let got = get_monthly_date_ranges(case.from, case.to).unwrap();
        assert_eq!(case.want, got, "{}", case.name);
    }
}

#[test]
fn test_get_monthly_date_ranges_err() {
    struct Case<'a> {
        name: &'a str,
        from: Date,
        to: Date,
    }
    let cases = &[
        Case {
            name: "'from' must be 1st day of month",
            from: ymd(2024, 10, 2),
            to: ymd(2024, 10, 31),
        },
        Case {
            name: "'to' must be last day of month",
            from: ymd(2024, 10, 1),
            to: ymd(2024, 10, 30),
        },
    ];
    for case in cases {
        let got = get_monthly_date_ranges(case.from, case.to);
        assert!(got.is_err(), "{}", case.name);
    }
}

#[test]
fn test_get_monthly_date_ranges_leap_february() {
    let got = get_monthly_date_ranges(ymd(2024, 2, 1), ymd(2024, 2, 29)).unwrap();
    assert_eq!(vec![(ymd(2024, 2, 1), ymd(2024, 2, 29))], got);

    let got = get_monthly_date_ranges(ymd(2023, 2, 1), ymd(2023, 2, 28)).unwrap();
    assert_eq!(vec![(ymd(2023, 2, 1), ymd(2023, 2, 28))], got);

    // in a leap year the 28th is not February's last day
    assert!(get_monthly_date_ranges(ymd(2024, 2, 1), ymd(2024, 2, 28)).is_err());
}

#[test]
fn test_get_monthly_date_ranges_error_variants() {
    let got = get_monthly_date_ranges(ymd(2024, 10, 2), ymd(2024, 10, 31));
    assert_eq!(Err(InvalidRangeError::FromNotFirstDay), got);
    assert_eq!(
        "from must be 1st day of month",
        InvalidRangeError::FromNotFirstDay.message()
    );

    let got = get_monthly_date_ranges(ymd(2024, 10, 1), ymd(2024, 10, 30));
    assert_eq!(Err(InvalidRangeError::ToNotLastDay), got);
    assert_eq!(
        "to must be last day of month",
        InvalidRangeError::ToNotLastDay.message()
    );
}

#[test]
fn test_get_monthly_date_ranges_contiguous_full_year() {
    let got = get_monthly_date_ranges(ymd(2024, 1, 1), ymd(2024, 12, 31)).unwrap();
    assert_eq!(12, got.len());
    assert_eq!(ymd(2024, 1, 1), got[0].0);
    assert_eq!(ymd(2024, 12, 31), got[11].1);
    for window in got.windows(2) {
        let end = window[0].1;
        let next_start = window[1].0;
        // each range starts on the day after the previous range ends
        assert_eq!(end.year, next_start.year);
        assert_eq!(end.month + 1, next_start.month);
        assert_eq!(1, next_start.day);
    }
}
