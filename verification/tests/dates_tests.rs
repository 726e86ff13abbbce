use simplesolat::dates::Date;
use simplesolat::dates::days_in_month;
use simplesolat::dates::is_leap_year;
use simplesolat::dates::year_window;

#[test]
fn leap_years() {
    assert!(is_leap_year(2024));
    assert!(!is_leap_year(2025));
    assert!(is_leap_year(2000));
    assert!(!is_leap_year(1900));
    assert!(!is_leap_year(2100));
}

#[test]
fn month_lengths() {
    assert_eq!(days_in_month(2025, 1), 31);
    assert_eq!(days_in_month(2025, 2), 28);
    assert_eq!(days_in_month(2024, 2), 29);
    assert_eq!(days_in_month(2025, 4), 30);
    assert_eq!(days_in_month(2025, 12), 31);
}

#[test]
fn from_ymd_validates() {
    assert!(Date::from_ymd(2025, 12, 8).is_some());
    assert!(Date::from_ymd(2024, 2, 29).is_some());
    assert!(Date::from_ymd(2025, 2, 29).is_none());
    assert!(Date::from_ymd(2025, 13, 1).is_none());
    assert!(Date::from_ymd(2025, 0, 1).is_none());
    assert!(Date::from_ymd(2025, 6, 31).is_none());
    assert!(Date::from_ymd(0, 1, 1).is_none());
    assert!(Date::from_ymd(10000, 1, 1).is_none());
}

#[test]
fn next_day_steps() {
    let d = Date::from_ymd(2025, 12, 8).unwrap();
    assert_eq!(d.next_day(), Date::from_ymd(2025, 12, 9).unwrap());

    let end_of_month = Date::from_ymd(2025, 11, 30).unwrap();
    assert_eq!(end_of_month.next_day(), Date::from_ymd(2025, 12, 1).unwrap());

    let end_of_year = Date::from_ymd(2025, 12, 31).unwrap();
    assert_eq!(end_of_year.next_day(), Date::from_ymd(2026, 1, 1).unwrap());

    let leap_cusp = Date::from_ymd(2024, 2, 28).unwrap();
    assert_eq!(leap_cusp.next_day(), Date::from_ymd(2024, 2, 29).unwrap());
}

#[test]
fn date_ordering() {
    let a = Date::from_ymd(2025, 6, 15).unwrap();
    let b = Date::from_ymd(2025, 7, 1).unwrap();
    let c = Date::from_ymd(2026, 1, 1).unwrap();
    assert!(a.lt(b));
    assert!(b.lt(c));
    assert!(a.le(a));
    assert!(!b.lt(a));
    assert!(!c.le(b));
}

#[test]
fn year_window_bounds() {
    let (start, end) = year_window(2025).unwrap();
    assert_eq!(start, Date::from_ymd(2025, 1, 1).unwrap());
    assert_eq!(end, Date::from_ymd(2025, 12, 31).unwrap());
    assert!(year_window(0).is_none());
    assert!(year_window(10000).is_none());
}
