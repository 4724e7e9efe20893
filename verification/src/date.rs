use vstd::prelude::*;

use crate::error::{CrawlError, ErrorKind};

verus! {

/// A calendar date, totally ordered by (year, month, day).
#[derive(Eq, PartialEq, Ord, PartialOrd, Structural, Debug, Clone, Copy)]
pub struct Date {
    pub year: i32,
    pub month: u8,
    pub day: u8,
}

/// A character is an ASCII decimal digit.
pub open spec fn is_digit(c: char) -> bool {
    48 <= (c as u32) && (c as u32) <= 57
}

/// The numeric value of an ASCII decimal digit.
pub open spec fn digit_val(c: char) -> int {
    (c as u32) - 48
}

/// The ASCII digit character for a value below ten.
pub open spec fn digit_char(v: int) -> char {
    if v == 0 {
        '0'
    } else if v == 1 {
        '1'
    } else if v == 2 {
        '2'
    } else if v == 3 {
        '3'
    } else if v == 4 {
        '4'
    } else if v == 5 {
        '5'
    } else if v == 6 {
        '6'
    } else if v == 7 {
        '7'
    } else if v == 8 {
        '8'
    } else {
        '9'
    }
}

/// The value of the two digits of `s` starting at `i`.
pub open spec fn two_digit_val(s: Seq<char>, i: int) -> int {
    digit_val(s[i]) * 10 + digit_val(s[i + 1])
}

/// The value of the four digits of `s` starting at `i`.
pub open spec fn four_digit_val(s: Seq<char>, i: int) -> int {
    digit_val(s[i]) * 1000 + digit_val(s[i + 1]) * 100 + digit_val(s[i + 2]) * 10 + digit_val(
        s[i + 3],
    )
}

impl Date {
    /// The date lies in the ranges the data model gives: the month and day
    /// are in calendar range, and the year has at most four digits.
    pub open spec fn valid(self) -> bool {
        &&& 0 <= self.year <= 9999
        &&& 1 <= self.month <= 12
        &&& 1 <= self.day <= 31
    }
}

/// What parsing a `MM/DD/YY` string yields: `Some` exactly when the string
/// is eight characters, slashes stand at positions 2 and 5, every other
/// position holds a digit, and month and day are in calendar range.
/// A two-digit year above 50 lies in the 1900s, one of at most 50 in the 2000s.
pub open spec fn spec_parse_mdy(s: Seq<char>) -> Option<Date> {
    if s.len() == 8 && s[2] == '/' && s[5] == '/' && is_digit(s[0]) && is_digit(s[1]) && is_digit(
        s[3],
    ) && is_digit(s[4]) && is_digit(s[6]) && is_digit(s[7]) {
        let m = two_digit_val(s, 0);
        let d = two_digit_val(s, 3);
        let y2 = two_digit_val(s, 6);
        let y = if y2 > 50 {
            1900 + y2
        } else {
            2000 + y2
        };
        if 1 <= m <= 12 && 1 <= d <= 31 {
            Some(Date { year: y as i32, month: m as u8, day: d as u8 })
        } else {
            None
        }
    } else {
        None
    }
}

/// What parsing a `YYYY/MM/DD` string yields: `Some` exactly when the string
/// is ten characters, slashes stand at positions 4 and 7, every other
/// position holds a digit, and month and day are in calendar range.
pub open spec fn spec_parse_ymd(s: Seq<char>) -> Option<Date> {
    if s.len() == 10 && s[4] == '/' && s[7] == '/' && is_digit(s[0]) && is_digit(s[1]) && is_digit(
        s[2],
    ) && is_digit(s[3]) && is_digit(s[5]) && is_digit(s[6]) && is_digit(s[8]) && is_digit(s[9]) {
        let y = four_digit_val(s, 0);
        let m = two_digit_val(s, 5);
        let d = two_digit_val(s, 8);
        if 1 <= m <= 12 && 1 <= d <= 31 {
            Some(Date { year: y as i32, month: m as u8, day: d as u8 })
        } else {
            None
        }
    } else {
        None
    }
}

/// The `YYYY/MM/DD` rendering of a date, year zero-padded to four digits,
/// month and day to two.
pub open spec fn spec_format_ymd(d: Date) -> Seq<char> {
    seq![
        digit_char(d.year as int / 1000 % 10),
        digit_char(d.year as int / 100 % 10),
        digit_char(d.year as int / 10 % 10),
        digit_char(d.year as int % 10),
        '/',
        digit_char(d.month as int / 10),
        digit_char(d.month as int % 10),
        '/',
        digit_char(d.day as int / 10),
        digit_char(d.day as int % 10),
    ]
}

/// Every digit value below ten renders as a digit character that reads
/// back as the same value.
proof fn lemma_digit_char_val(v: int)
    requires
        0 <= v < 10,
    ensures
        is_digit(digit_char(v)),
        digit_val(digit_char(v)) == v,
{
}

/// Law: rendering a valid date as `YYYY/MM/DD` and parsing that rendering
/// back yields the same date.
pub proof fn lemma_format_parse_round_trip(d: Date)
    requires
        d.valid(),
    ensures
        spec_parse_ymd(spec_format_ymd(d)) == Some(d),
{
    let s = spec_format_ymd(d);
    let y = d.year as int;
    let m = d.month as int;
    let dy = d.day as int;
    lemma_digit_char_val(y / 1000 % 10);
    lemma_digit_char_val(y / 100 % 10);
    lemma_digit_char_val(y / 10 % 10);
    lemma_digit_char_val(y % 10);
    lemma_digit_char_val(m / 10);
    lemma_digit_char_val(m % 10);
    lemma_digit_char_val(dy / 10);
    lemma_digit_char_val(dy % 10);
    assert(four_digit_val(s, 0) == y) by {
        vstd::arithmetic::div_mod::lemma_small_mod(y as nat, 10000);
        vstd::arithmetic::div_mod::lemma_mod_breakdown(y, 1000, 10);
        vstd::arithmetic::div_mod::lemma_mod_breakdown(y, 100, 10);
        vstd::arithmetic::div_mod::lemma_mod_breakdown(y, 10, 10);
    };
    assert(two_digit_val(s, 5) == m) by {
        vstd::arithmetic::div_mod::lemma_fundamental_div_mod(m, 10);
    };
    assert(two_digit_val(s, 8) == dy) by {
        vstd::arithmetic::div_mod::lemma_fundamental_div_mod(dy, 10);
    };
    assert(spec_parse_ymd(s) == Some(d));
}

/// The numeric value of a digit character, if it is one.
fn digit(c: char) -> (r: Option<u8>)
    ensures
        r matches Some(v) ==> is_digit(c) && v == digit_val(c) && v < 10,
        r is None ==> !is_digit(c),
{
    let u: u32 = c as u32;
    if 48 <= u && u <= 57 {
        Some((u - 48) as u8)
    } else {
        None
    }
}

/// The one-character string for a digit value.
fn digit_str(v: u8) -> (r: &'static str)
    requires
        v < 10,
    ensures
        r@ =~= seq![digit_char(v as int)],
{
    proof {
        reveal_strlit("0");
        reveal_strlit("1");
        reveal_strlit("2");
        reveal_strlit("3");
        reveal_strlit("4");
        reveal_strlit("5");
        reveal_strlit("6");
        reveal_strlit("7");
        reveal_strlit("8");
        reveal_strlit("9");
    }
    match v {
        0 => "0",
        1 => "1",
        2 => "2",
        3 => "3",
        4 => "4",
        5 => "5",
        6 => "6",
        7 => "7",
        8 => "8",
        _ => "9",
    }
}

impl Date {
    /// Parses a `MM/DD/YY` date string; rejected strings yield a
    /// date-parse error.
    pub fn parse_mdy(s: &str) -> (r: Result<Date, CrawlError>)
        ensures
            match r {
                Ok(d) => spec_parse_mdy(s@) == Some(d),
                Err(e) => spec_parse_mdy(s@) is None && e.kind == ErrorKind::DateParse,
            },
    {
        let err = || -> (r: CrawlError)
            ensures
                r.kind == ErrorKind::DateParse,
            { CrawlError::new(ErrorKind::DateParse, String::from_str(s)) };
        if s.unicode_len() != 8 {
            return Err(err());
        }
        if s.get_char(2) != '/' || s.get_char(5) != '/' {
            return Err(err());
        }
        let m1 = digit(s.get_char(0));
        let m0 = digit(s.get_char(1));
        let d1 = digit(s.get_char(3));
        let d0 = digit(s.get_char(4));
        let y1 = digit(s.get_char(6));
        let y0 = digit(s.get_char(7));
        match (m1, m0, d1, d0, y1, y0) {
            (Some(m1), Some(m0), Some(d1), Some(d0), Some(y1), Some(y0)) => {
                let m: u8 = m1 * 10 + m0;
                let d: u8 = d1 * 10 + d0;
                let y2: u16 = (y1 as u16) * 10 + (y0 as u16);
                let y: i32 = if y2 > 50 {
                    1900 + (y2 as i32)
                } else {
                    2000 + (y2 as i32)
                };
                if 1 <= m && m <= 12 && 1 <= d && d <= 31 {
                    Ok(Date { year: y, month: m, day: d })
                } else {
                    Err(err())
                }
            },
            _ => Err(err()),
        }
    }

    /// Parses a `YYYY/MM/DD` date string; rejected strings yield a
    /// date-parse error.
    pub fn parse_ymd(s: &str) -> (r: Result<Date, CrawlError>)
        ensures
            match r {
                Ok(d) => spec_parse_ymd(s@) == Some(d),
                Err(e) => spec_parse_ymd(s@) is None && e.kind == ErrorKind::DateParse,
            },
    {
        let err = || -> (r: CrawlError)
            ensures
                r.kind == ErrorKind::DateParse,
            { CrawlError::new(ErrorKind::DateParse, String::from_str(s)) };
        if s.unicode_len() != 10 {
            return Err(err());
        }
        if s.get_char(4) != '/' || s.get_char(7) != '/' {
            return Err(err());
        }
        let y3 = digit(s.get_char(0));
        let y2 = digit(s.get_char(1));
        let y1 = digit(s.get_char(2));
        let y0 = digit(s.get_char(3));
        let m1 = digit(s.get_char(5));
        let m0 = digit(s.get_char(6));
        let d1 = digit(s.get_char(8));
        let d0 = digit(s.get_char(9));
        match (y3, y2, y1, y0, m1, m0, d1, d0) {
            (Some(y3), Some(y2), Some(y1), Some(y0), Some(m1), Some(m0), Some(d1), Some(d0)) => {
                let y: i32 = (y3 as i32) * 1000 + (y2 as i32) * 100 + (y1 as i32) * 10 + (
                y0 as i32);
                let m: u8 = m1 * 10 + m0;
                let d: u8 = d1 * 10 + d0;
                if 1 <= m && m <= 12 && 1 <= d && d <= 31 {
                    Ok(Date { year: y, month: m, day: d })
                } else {
                    Err(err())
                }
            },
            _ => Err(err()),
        }
    }

    /// Renders the date as `YYYY/MM/DD`, zero-padded.
    pub fn format_ymd(&self) -> (r: String)
        requires
            self.valid(),
        ensures
            r@ == spec_format_ymd(*self),
    {
        proof {
            reveal_strlit("/");
        }
        let y: u32 = self.year as u32;
        let mut s = String::new();
        s.append(digit_str((y / 1000 % 10) as u8));
        s.append(digit_str((y / 100 % 10) as u8));
        s.append(digit_str((y / 10 % 10) as u8));
        s.append(digit_str((y % 10) as u8));
        s.append("/");
        s.append(digit_str(self.month / 10));
        s.append(digit_str(self.month % 10));
        s.append("/");
        s.append(digit_str(self.day / 10));
        s.append(digit_str(self.day % 10));
        proof {
            assert(s@ =~= spec_format_ymd(*self));
        }
        s
    }
}

} // verus!
