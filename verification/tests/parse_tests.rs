use simplesolat::dates::Date;
use simplesolat::dates::TimeOfDay;
use simplesolat::parse::ParseError;
use simplesolat::parse::parse_date_text;
use simplesolat::parse::parse_time_text;

#[test]
fn date_round_trip() {
    let d = parse_date_text("08-Dec-2025").unwrap();
    assert_eq!(d, Date { year: 2025, month: 12, day: 8 });
}

#[test]
fn date_rejects_other_separators() {
    assert_eq!(parse_date_text("2025/12/08"), Err(ParseError::InvalidDate));
    assert_eq!(parse_date_text("08/Dec/2025"), Err(ParseError::InvalidDate));
    assert_eq!(parse_date_text("2025-12-08"), Err(ParseError::InvalidDate));
}

#[test]
fn date_all_months() {
    let months = [
        "Jan", "Feb", "Mar", "Apr", "May", "Jun", "Jul", "Aug", "Sep", "Oct", "Nov", "Dec",
    ];
    for (i, m) in months.iter().enumerate() {
        let text = format!("15-{}-2025", m);
        let d = parse_date_text(&text).unwrap();
        assert_eq!(d, Date { year: 2025, month: (i + 1) as u8, day: 15 });
    }
}

#[test]
fn date_month_case_insensitive() {
    assert_eq!(
        parse_date_text("08-DEC-2025").unwrap(),
        Date { year: 2025, month: 12, day: 8 }
    );
    assert_eq!(
        parse_date_text("08-dec-2025").unwrap(),
        Date { year: 2025, month: 12, day: 8 }
    );
}

#[test]
fn date_rejects_bad_values() {
    assert_eq!(parse_date_text("29-Feb-2025"), Err(ParseError::InvalidDate));
    assert!(parse_date_text("29-Feb-2024").is_ok());
    assert_eq!(parse_date_text("31-Apr-2025"), Err(ParseError::InvalidDate));
    assert_eq!(parse_date_text("00-Dec-2025"), Err(ParseError::InvalidDate));
    assert_eq!(parse_date_text("08-Foo-2025"), Err(ParseError::InvalidDate));
    assert_eq!(parse_date_text("08-Dec-0000"), Err(ParseError::InvalidDate));
}

#[test]
fn date_rejects_bad_shapes() {
    assert_eq!(parse_date_text(""), Err(ParseError::InvalidDate));
    assert_eq!(parse_date_text("8-Dec-2025"), Err(ParseError::InvalidDate));
    assert_eq!(parse_date_text("08-Dec-25"), Err(ParseError::InvalidDate));
    assert_eq!(parse_date_text("08-Dec-2025 "), Err(ParseError::InvalidDate));
    assert_eq!(parse_date_text("0a-Dec-2025"), Err(ParseError::InvalidDate));
}

#[test]
fn time_round_trip() {
    let t = parse_time_text("05:45:00").unwrap();
    assert_eq!(t, TimeOfDay { hour: 5, minute: 45, second: 0 });
    let t = parse_time_text("23:59:59").unwrap();
    assert_eq!(t, TimeOfDay { hour: 23, minute: 59, second: 59 });
    let t = parse_time_text("00:00:00").unwrap();
    assert_eq!(t, TimeOfDay { hour: 0, minute: 0, second: 0 });
}

#[test]
fn time_rejects_bad_values() {
    assert_eq!(parse_time_text("24:00:00"), Err(ParseError::InvalidTime));
    assert_eq!(parse_time_text("05:60:00"), Err(ParseError::InvalidTime));
    assert_eq!(parse_time_text("05:45:60"), Err(ParseError::InvalidTime));
}

#[test]
fn time_rejects_bad_shapes() {
    assert_eq!(parse_time_text("05:45"), Err(ParseError::InvalidTime));
    assert_eq!(parse_time_text("5:45:00"), Err(ParseError::InvalidTime));
    assert_eq!(parse_time_text("05-45-00"), Err(ParseError::InvalidTime));
    assert_eq!(parse_time_text("05:45:00.0"), Err(ParseError::InvalidTime));
    assert_eq!(parse_time_text(""), Err(ParseError::InvalidTime));
}
