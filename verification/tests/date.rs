use star_history::{date_from_unix_seconds, is_leap_year, month_day, time_to_year, Date};

#[test]
fn leap_years() {
    assert!(is_leap_year(2000));
    assert!(is_leap_year(2024));
    assert!(!is_leap_year(1900));
    assert!(!is_leap_year(2023));
}

#[test]
fn days_before_each_month() {
    assert_eq!(month_day(false, 1), 0);
    assert_eq!(month_day(false, 3), 59);
    assert_eq!(month_day(true, 3), 60);
    assert_eq!(month_day(false, 12), 334);
    assert_eq!(month_day(true, 12), 335);
}

#[test]
fn fractional_year_of_dates() {
    let f = time_to_year(Date { year: 2023, month: 1, day: 1 });
    assert_eq!((f.year, f.num, f.den), (2023, 1, 365));

    let f = time_to_year(Date { year: 2024, month: 3, day: 1 });
    assert_eq!((f.year, f.num, f.den), (2024, 61, 366));

    let f = time_to_year(Date { year: 2023, month: 12, day: 31 });
    assert_eq!((f.year, f.num, f.den), (2023, 365, 365));
}

#[test]
fn unix_seconds_decode_to_civil_dates() {
    assert_eq!(
        date_from_unix_seconds(0).unwrap(),
        Date { year: 1970, month: 1, day: 1 }
    );
    assert_eq!(
        date_from_unix_seconds(1_700_000_000).unwrap(),
        Date { year: 2023, month: 11, day: 14 }
    );
    assert_eq!(
        date_from_unix_seconds(-86_400).unwrap(),
        Date { year: 1969, month: 12, day: 31 }
    );
    assert!(date_from_unix_seconds(i64::MAX).is_err());
    // A date is owed everywhere within 8e12 seconds of the epoch.
    assert!(date_from_unix_seconds(8_000_000_000_000).is_ok());
    assert!(date_from_unix_seconds(-8_000_000_000_000).is_ok());
}

#[test]
fn jan_first_maps_near_the_year_mark() {
    // A leap year's Jan 1 lands strictly inside [y, y + 1/365); a common
    // year's lands exactly on the upper end.
    for year in [1900, 2000, 2023, 2024] {
        let f = time_to_year(Date { year, month: 1, day: 1 });
        let x = f.year as f64 + f.num as f64 / f.den as f64;
        assert!(x >= year as f64);
        if is_leap_year(year) {
            assert!(x < year as f64 + 1.0 / 365.0);
        } else {
            assert!(x <= year as f64 + 1.0 / 365.0);
        }
    }
}
