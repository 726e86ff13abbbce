//! Parsing of the upstream source's textual encodings: dates written as
//! "08-Dec-2025" (two-digit day, three-letter month abbreviation, four-digit
//! year) and times of day written as "05:45:00".

use vstd::prelude::*;

use crate::dates::Date;
use crate::dates::TimeOfDay;
use crate::dates::spec_days_in_month;
use crate::dates::days_in_month;

verus! {

/// A raw entry from the upstream carried malformed date or time text.
#[derive(Clone, Copy, PartialEq, Eq, Structural, Debug)]
pub enum ParseError {
    InvalidDate,
    InvalidTime,
}

pub open spec fn is_digit(c: char) -> bool {
    48 <= c as int && c as int <= 57
}

pub open spec fn digit_val(c: char) -> int {
    c as int - 48
}

/// `c` is one of the two cases of a letter.
pub open spec fn eqi(c: char, upper: char, lower: char) -> bool {
    c == upper || c == lower
}

/// The month named by a three-letter abbreviation, compared without regard
/// to letter case.
pub open spec fn spec_month_abbrev(c0: char, c1: char, c2: char) -> Option<u8> {
    if eqi(c0, 'J', 'j') && eqi(c1, 'a', 'A') && eqi(c2, 'n', 'N') {
        Some(1u8)
    } else if eqi(c0, 'F', 'f') && eqi(c1, 'e', 'E') && eqi(c2, 'b', 'B') {
        Some(2u8)
    } else if eqi(c0, 'M', 'm') && eqi(c1, 'a', 'A') && eqi(c2, 'r', 'R') {
        Some(3u8)
    } else if eqi(c0, 'A', 'a') && eqi(c1, 'p', 'P') && eqi(c2, 'r', 'R') {
        Some(4u8)
    } else if eqi(c0, 'M', 'm') && eqi(c1, 'a', 'A') && eqi(c2, 'y', 'Y') {
        Some(5u8)
    } else if eqi(c0, 'J', 'j') && eqi(c1, 'u', 'U') && eqi(c2, 'n', 'N') {
        Some(6u8)
    } else if eqi(c0, 'J', 'j') && eqi(c1, 'u', 'U') && eqi(c2, 'l', 'L') {
        Some(7u8)
    } else if eqi(c0, 'A', 'a') && eqi(c1, 'u', 'U') && eqi(c2, 'g', 'G') {
        Some(8u8)
    } else if eqi(c0, 'S', 's') && eqi(c1, 'e', 'E') && eqi(c2, 'p', 'P') {
        Some(9u8)
    } else if eqi(c0, 'O', 'o') && eqi(c1, 'c', 'C') && eqi(c2, 't', 'T') {
        Some(10u8)
    } else if eqi(c0, 'N', 'n') && eqi(c1, 'o', 'O') && eqi(c2, 'v', 'V') {
        Some(11u8)
    } else if eqi(c0, 'D', 'd') && eqi(c1, 'e', 'E') && eqi(c2, 'c', 'C') {
        Some(12u8)
    } else {
        None
    }
}

/// The shape a date text must have: "DD-Mon-YYYY".
pub open spec fn date_text_shaped(s: Seq<char>) -> bool {
    &&& s.len() == 11
    &&& is_digit(s[0])
    &&& is_digit(s[1])
    &&& s[2] == '-'
    &&& spec_month_abbrev(s[3], s[4], s[5]) is Some
    &&& s[6] == '-'
    &&& is_digit(s[7])
    &&& is_digit(s[8])
    &&& is_digit(s[9])
    &&& is_digit(s[10])
}

/// The date a date text denotes: the text must be shaped "DD-Mon-YYYY" and
/// must denote a genuine calendar date in years 1 through 9999.
pub open spec fn spec_parse_date(s: Seq<char>) -> Option<Date> {
    if date_text_shaped(s) {
        let day = digit_val(s[0]) * 10 + digit_val(s[1]);
        let month = spec_month_abbrev(s[3], s[4], s[5])->Some_0;
        let year = digit_val(s[7]) * 1000 + digit_val(s[8]) * 100 + digit_val(s[9]) * 10
            + digit_val(s[10]);
        if 1 <= year && 1 <= day && day <= spec_days_in_month(year, month as int) {
            Some(Date { year: year as i32, month, day: day as u8 })
        } else {
            None
        }
    } else {
        None
    }
}

/// The shape a time text must have: "HH:MM:SS".
pub open spec fn time_text_shaped(s: Seq<char>) -> bool {
    &&& s.len() == 8
    &&& is_digit(s[0])
    &&& is_digit(s[1])
    &&& s[2] == ':'
    &&& is_digit(s[3])
    &&& is_digit(s[4])
    &&& s[5] == ':'
    &&& is_digit(s[6])
    &&& is_digit(s[7])
}

/// The time of day a time text denotes: the text must be shaped "HH:MM:SS"
/// and must denote a genuine wall-clock time.
pub open spec fn spec_parse_time(s: Seq<char>) -> Option<TimeOfDay> {
    if time_text_shaped(s) {
        let hour = digit_val(s[0]) * 10 + digit_val(s[1]);
        let minute = digit_val(s[3]) * 10 + digit_val(s[4]);
        let second = digit_val(s[6]) * 10 + digit_val(s[7]);
        if hour < 24 && minute < 60 && second < 60 {
            Some(TimeOfDay { hour: hour as u8, minute: minute as u8, second: second as u8 })
        } else {
            None
        }
    } else {
        None
    }
}

fn month_abbrev(c0: char, c1: char, c2: char) -> (r: Option<u8>)
    ensures
        r == spec_month_abbrev(c0, c1, c2),
{
    if (c0 == 'J' || c0 == 'j') && (c1 == 'a' || c1 == 'A') && (c2 == 'n' || c2 == 'N') {
        Some(1)
    } else if (c0 == 'F' || c0 == 'f') && (c1 == 'e' || c1 == 'E') && (c2 == 'b' || c2 == 'B') {
        Some(2)
    } else if (c0 == 'M' || c0 == 'm') && (c1 == 'a' || c1 == 'A') && (c2 == 'r' || c2 == 'R') {
        Some(3)
    } else if (c0 == 'A' || c0 == 'a') && (c1 == 'p' || c1 == 'P') && (c2 == 'r' || c2 == 'R') {
        Some(4)
    } else if (c0 == 'M' || c0 == 'm') && (c1 == 'a' || c1 == 'A') && (c2 == 'y' || c2 == 'Y') {
        Some(5)
    } else if (c0 == 'J' || c0 == 'j') && (c1 == 'u' || c1 == 'U') && (c2 == 'n' || c2 == 'N') {
        Some(6)
    } else if (c0 == 'J' || c0 == 'j') && (c1 == 'u' || c1 == 'U') && (c2 == 'l' || c2 == 'L') {
        Some(7)
    } else if (c0 == 'A' || c0 == 'a') && (c1 == 'u' || c1 == 'U') && (c2 == 'g' || c2 == 'G') {
        Some(8)
    } else if (c0 == 'S' || c0 == 's') && (c1 == 'e' || c1 == 'E') && (c2 == 'p' || c2 == 'P') {
        Some(9)
    } else if (c0 == 'O' || c0 == 'o') && (c1 == 'c' || c1 == 'C') && (c2 == 't' || c2 == 'T') {
        Some(10)
    } else if (c0 == 'N' || c0 == 'n') && (c1 == 'o' || c1 == 'O') && (c2 == 'v' || c2 == 'V') {
        Some(11)
    } else if (c0 == 'D' || c0 == 'd') && (c1 == 'e' || c1 == 'E') && (c2 == 'c' || c2 == 'C') {
        Some(12)
    } else {
        None
    }
}

fn digit(c: char) -> (r: Option<u32>)
    ensures
        match r {
            Some(v) => is_digit(c) && v == digit_val(c),
            None => !is_digit(c),
        },
{
    let v = c as u32;
    if 48 <= v && v <= 57 {
        Some(v - 48)
    } else {
        None
    }
}

/// Parses a date text of the fixed "DD-Mon-YYYY" form, e.g. "08-Dec-2025".
pub fn parse_date_text(s: &str) -> (r: Result<Date, ParseError>)
    ensures
        match r {
            Ok(d) => spec_parse_date(s@) == Some(d) && d.wf(),
            Err(e) => spec_parse_date(s@) is None && e == ParseError::InvalidDate,
        },
{
    if s.unicode_len() != 11 {
        return Err(ParseError::InvalidDate);
    }
    let d0 = digit(s.get_char(0));
    let d1 = digit(s.get_char(1));
    if d0.is_none() || d1.is_none() || s.get_char(2) != '-' {
        return Err(ParseError::InvalidDate);
    }
    let month_opt = month_abbrev(s.get_char(3), s.get_char(4), s.get_char(5));
    if month_opt.is_none() || s.get_char(6) != '-' {
        return Err(ParseError::InvalidDate);
    }
    let y0 = digit(s.get_char(7));
    let y1 = digit(s.get_char(8));
    let y2 = digit(s.get_char(9));
    let y3 = digit(s.get_char(10));
    if y0.is_none() || y1.is_none() || y2.is_none() || y3.is_none() {
        return Err(ParseError::InvalidDate);
    }
    let day: u32 = d0.unwrap() * 10 + d1.unwrap();
    let month: u8 = month_opt.unwrap();
    let year: u32 = y0.unwrap() * 1000 + y1.unwrap() * 100 + y2.unwrap() * 10 + y3.unwrap();
    if 1 <= year && 1 <= day && day <= days_in_month(year as i32, month) as u32 {
        Ok(Date { year: year as i32, month, day: day as u8 })
    } else {
        Err(ParseError::InvalidDate)
    }
}

/// Parses a time text of the fixed "HH:MM:SS" form, e.g. "05:45:00".
pub fn parse_time_text(s: &str) -> (r: Result<TimeOfDay, ParseError>)
    ensures
        match r {
            Ok(t) => spec_parse_time(s@) == Some(t) && t.wf(),
            Err(e) => spec_parse_time(s@) is None && e == ParseError::InvalidTime,
        },
{
    if s.unicode_len() != 8 {
        return Err(ParseError::InvalidTime);
    }
    let h0 = digit(s.get_char(0));
    let h1 = digit(s.get_char(1));
    let m0 = digit(s.get_char(3));
    let m1 = digit(s.get_char(4));
    let s0 = digit(s.get_char(6));
    let s1 = digit(s.get_char(7));
    if h0.is_none() || h1.is_none() || s.get_char(2) != ':' || m0.is_none() || m1.is_none()
        || s.get_char(5) != ':' || s0.is_none() || s1.is_none() {
        return Err(ParseError::InvalidTime);
    }
    let hour: u32 = h0.unwrap() * 10 + h1.unwrap();
    let minute: u32 = m0.unwrap() * 10 + m1.unwrap();
    let second: u32 = s0.unwrap() * 10 + s1.unwrap();
    if hour < 24 && minute < 60 && second < 60 {
        Ok(TimeOfDay { hour: hour as u8, minute: minute as u8, second: second as u8 })
    } else {
        Err(ParseError::InvalidTime)
    }
}

} // verus!
