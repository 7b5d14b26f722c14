//! Calendar dates and second-granularity local timestamps.
//!
//! A timestamp is kept as plain civil fields (year, month, day, hour,
//! minute, second); `to_secs` linearizes a valid timestamp to a number of
//! seconds, which the recorder and the store compare and subtract.

use vstd::prelude::*;
use crate::text::{all_digits, dec_value, pad_dec, parse_u64, spec_pad_digits};

verus! {

/// A calendar date (local, civil).
#[derive(Clone, Copy, Debug, PartialEq, Eq, Structural)]
pub struct Date {
    pub year: u32,
    pub month: u32,
    pub day: u32,
}

/// A local point in time with second granularity.
#[derive(Clone, Copy, Debug, PartialEq, Eq, Structural)]
pub struct Timestamp {
    pub date: Date,
    pub hour: u32,
    pub minute: u32,
    pub second: u32,
}

pub open spec fn spec_is_leap_year(y: int) -> bool {
    (y % 4 == 0 && y % 100 != 0) || y % 400 == 0
}

pub fn is_leap_year(y: u32) -> (r: bool)
    ensures
        r == spec_is_leap_year(y as int),
{
    (y % 4 == 0 && y % 100 != 0) || y % 400 == 0
}

pub open spec fn spec_days_in_month(y: int, m: int) -> int {
    if m == 2 {
        if spec_is_leap_year(y) {
            29
        } else {
            28
        }
    } else if m == 4 || m == 6 || m == 9 || m == 11 {
        30
    } else {
        31
    }
}

pub fn days_in_month(y: u32, m: u32) -> (r: u32)
    ensures
        r == spec_days_in_month(y as int, m as int),
        28 <= r <= 31,
{
    if m == 2 {
        if is_leap_year(y) {
            29
        } else {
            28
        }
    } else if m == 4 || m == 6 || m == 9 || m == 11 {
        30
    } else {
        31
    }
}

impl Date {
    /// A valid civil date within the four-digit-year range.
    pub open spec fn wf(self) -> bool {
        &&& 1 <= self.year <= 9999
        &&& 1 <= self.month <= 12
        &&& 1 <= self.day <= spec_days_in_month(self.year as int, self.month as int)
    }
}

/// Days contributed by whole years before year `y` (year 1 is the first).
pub open spec fn spec_days_before_year(y: int) -> int {
    (y - 1) * 365 + (y - 1) / 4 - (y - 1) / 100 + (y - 1) / 400
}

/// Days contributed by whole months of the same year before month `m`.
pub open spec fn spec_days_before_month(m: int, leap: bool) -> int {
    let base: int = if m == 1 {
        0
    } else if m == 2 {
        31
    } else if m == 3 {
        59
    } else if m == 4 {
        90
    } else if m == 5 {
        120
    } else if m == 6 {
        151
    } else if m == 7 {
        181
    } else if m == 8 {
        212
    } else if m == 9 {
        243
    } else if m == 10 {
        273
    } else if m == 11 {
        304
    } else {
        334
    };
    if leap && m >= 3 {
        base + 1
    } else {
        base
    }
}

/// Zero-based day index of a date (0 is january 1 of year 1).
pub open spec fn spec_day_index(d: Date) -> int {
    spec_days_before_year(d.year as int) + spec_days_before_month(
        d.month as int,
        spec_is_leap_year(d.year as int),
    ) + d.day - 1
}

/// Seconds of a timestamp counted from 00:00:00 on january 1 of year 1.
pub open spec fn spec_to_secs(t: Timestamp) -> int {
    spec_day_index(t.date) * 86400 + t.hour * 3600 + t.minute * 60 + t.second
}

/// Upper bound on `spec_to_secs` of any well-formed timestamp.
pub open spec fn max_timestamp_secs() -> int {
    400000000000
}

pub proof fn lemma_to_secs_bounds(t: Timestamp)
    requires
        t.wf(),
    ensures
        0 <= spec_to_secs(t) < max_timestamp_secs(),
{
    let y = t.date.year as int;
    assert((y - 1) * 365 <= 9998 * 365) by (nonlinear_arith)
        requires
            y <= 9999,
    ;
    assert((y - 1) * 365 >= 0) by (nonlinear_arith)
        requires
            y >= 1,
    ;
    assert(0 <= (y - 1) / 4 <= 2499);
    assert(0 <= (y - 1) / 100 <= 99);
    assert(0 <= (y - 1) / 400 <= 24);
    assert(0 <= spec_day_index(t.date) <= 9998 * 365 + 2499 + 24 + 335 + 30);
    assert(spec_day_index(t.date) * 86400 <= (9998 * 365 + 2499 + 24 + 335 + 30) * 86400)
        by (nonlinear_arith)
        requires
            0 <= spec_day_index(t.date) <= 9998 * 365 + 2499 + 24 + 335 + 30,
    ;
    assert(spec_day_index(t.date) * 86400 >= 0) by (nonlinear_arith)
        requires
            spec_day_index(t.date) >= 0,
    ;
}

impl Timestamp {
    /// A valid timestamp: valid date, fields within clock ranges.
    pub open spec fn wf(self) -> bool {
        &&& self.date.wf()
        &&& self.hour <= 23
        &&& self.minute <= 59
        &&& self.second <= 59
    }

    /// Builds a timestamp after validating every field.
    pub fn new(year: u32, month: u32, day: u32, hour: u32, minute: u32, second: u32) -> (r:
        Option<Timestamp>)
        ensures
            r matches Some(t) ==> t.wf() && t == (Timestamp {
                date: Date { year, month, day },
                hour,
                minute,
                second,
            }),
            r is Some <==> (Timestamp {
                date: Date { year, month, day },
                hour,
                minute,
                second,
            }).wf(),
    {
        if 1 <= year && year <= 9999 && 1 <= month && month <= 12 && 1 <= day && day
            <= days_in_month(year, month) && hour <= 23 && minute <= 59 && second <= 59 {
            Some(Timestamp { date: Date { year, month, day }, hour, minute, second })
        } else {
            None
        }
    }

    /// Linearizes the timestamp to seconds; see `spec_to_secs`.
    pub fn to_secs(&self) -> (r: u64)
        requires
            self.wf(),
        ensures
            r == spec_to_secs(*self),
            r < max_timestamp_secs(),
    {
        proof {
            lemma_to_secs_bounds(*self);
        }
        let y = self.date.year as u64;
        let days_before_year: u64 = (y - 1) * 365 + (y - 1) / 4 - (y - 1) / 100 + (y - 1) / 400;
        let m = self.date.month;
        let base: u64 = if m == 1 {
            0
        } else if m == 2 {
            31
        } else if m == 3 {
            59
        } else if m == 4 {
            90
        } else if m == 5 {
            120
        } else if m == 6 {
            151
        } else if m == 7 {
            181
        } else if m == 8 {
            212
        } else if m == 9 {
            243
        } else if m == 10 {
            273
        } else if m == 11 {
            304
        } else {
            334
        };
        let days_before_month: u64 = if is_leap_year(self.date.year) && m >= 3 {
            base + 1
        } else {
            base
        };
        let day_index: u64 = days_before_year + days_before_month + (self.date.day as u64) - 1;
        day_index * 86400 + (self.hour as u64) * 3600 + (self.minute as u64) * 60 + (
        self.second as u64)
    }
}

/// The `YYYY-MM-DD` form of a date.
pub open spec fn spec_format_date(d: Date) -> Seq<char> {
    spec_pad_digits(d.year as int, 4) + seq!['-'] + spec_pad_digits(d.month as int, 2) + seq!['-']
        + spec_pad_digits(d.day as int, 2)
}

/// The `YYYY-MM-DDTHH:MM:SS` form of a timestamp.
pub open spec fn spec_format_timestamp(t: Timestamp) -> Seq<char> {
    spec_format_date(t.date) + seq!['T'] + spec_pad_digits(t.hour as int, 2) + seq![':']
        + spec_pad_digits(t.minute as int, 2) + seq![':'] + spec_pad_digits(t.second as int, 2)
}

impl Date {
    /// Formats the date as `YYYY-MM-DD`.
    pub fn format(&self) -> (r: String)
        ensures
            r@ == spec_format_date(*self),
    {
        proof {
            reveal_strlit("-");
        }
        let mut s = pad_dec(self.year as u64, 4);
        s.append("-");
        let m = pad_dec(self.month as u64, 2);
        s.append(m.as_str());
        s.append("-");
        let d = pad_dec(self.day as u64, 2);
        s.append(d.as_str());
        proof {
            assert("-"@ =~= seq!['-']);
            assert(s@ =~= spec_format_date(*self));
        }
        s
    }

    /// Parses a `YYYY-MM-DD` string into a valid date: exactly the
    /// ten-character digit-and-dash form naming a well-formed civil date is
    /// accepted.
    pub fn parse(s: &str) -> (r: Option<Date>)
        ensures
            r == spec_parse_date(s@),
            r matches Some(d) ==> d.wf(),
    {
        proof {
            reveal_strlit("-");
        }
        let n = s.unicode_len();
        if n != 10 {
            return None;
        }
        if !(s.get_char(4) == '-' && s.get_char(7) == '-') {
            return None;
        }
        let ys = s.substring_char(0, 4);
        let ms = s.substring_char(5, 7);
        let ds = s.substring_char(8, 10);
        let y = match parse_u64(ys) {
            Some(v) => v,
            None => {
                proof {
                    if all_digits(s@.subrange(0, 4)) {
                        lemma_four_digit_bound(s@.subrange(0, 4));
                    }
                }
                return None;
            },
        };
        let mo = match parse_u64(ms) {
            Some(v) => v,
            None => {
                proof {
                    if all_digits(s@.subrange(5, 7)) {
                        lemma_two_digit_bound(s@.subrange(5, 7));
                    }
                }
                return None;
            },
        };
        let d = match parse_u64(ds) {
            Some(v) => v,
            None => {
                proof {
                    if all_digits(s@.subrange(8, 10)) {
                        lemma_two_digit_bound(s@.subrange(8, 10));
                    }
                }
                return None;
            },
        };
        proof {
            lemma_four_digit_bound(s@.subrange(0, 4));
            lemma_two_digit_bound(s@.subrange(5, 7));
            lemma_two_digit_bound(s@.subrange(8, 10));
        }
        let date = Date { year: y as u32, month: mo as u32, day: d as u32 };
        if 1 <= date.year && date.year <= 9999 && 1 <= date.month && date.month <= 12 && 1
            <= date.day && date.day <= days_in_month(date.year, date.month) {
            Some(date)
        } else {
            None
        }
    }
}

/// What `Date::parse` accepts: the ten-character `YYYY-MM-DD` digit form
/// whose fields make a well-formed civil date.
pub open spec fn spec_parse_date(s: Seq<char>) -> Option<Date> {
    if s.len() == 10 && all_digits(s.subrange(0, 4)) && s[4] == '-' && all_digits(
        s.subrange(5, 7),
    ) && s[7] == '-' && all_digits(s.subrange(8, 10)) {
        let d = Date {
            year: dec_value(s.subrange(0, 4)) as u32,
            month: dec_value(s.subrange(5, 7)) as u32,
            day: dec_value(s.subrange(8, 10)) as u32,
        };
        if d.wf() {
            Some(d)
        } else {
            None
        }
    } else {
        None
    }
}

proof fn lemma_two_digit_bound(s: Seq<char>)
    requires
        s.len() == 2,
        all_digits(s),
    ensures
        0 <= dec_value(s) <= 99,
{
    let s1 = s.drop_last();
    assert(s1.drop_last() =~= Seq::<char>::empty());
    assert(dec_value(Seq::<char>::empty()) == 0);
    assert(dec_value(s1) == crate::text::digit_val(s1.last()));
    assert(s1.last() == s[0]);
    assert(crate::text::is_digit(s[0]) && crate::text::is_digit(s[1]));
    assert(dec_value(s) == dec_value(s1) * 10 + crate::text::digit_val(s.last()));
}

proof fn lemma_four_digit_bound(s: Seq<char>)
    requires
        s.len() == 4,
        all_digits(s),
    ensures
        0 <= dec_value(s) <= 9999,
{
    let s1 = s.drop_last();
    let s2 = s1.drop_last();
    let s3 = s2.drop_last();
    assert(s3.drop_last() =~= Seq::<char>::empty());
    assert(dec_value(Seq::<char>::empty()) == 0);
    assert(s3.last() == s[0] && s2.last() == s[1] && s1.last() == s[2] && s.last() == s[3]);
    assert(crate::text::is_digit(s[0]) && crate::text::is_digit(s[1]) && crate::text::is_digit(
        s[2],
    ) && crate::text::is_digit(s[3]));
    assert(dec_value(s3) == crate::text::digit_val(s[0]));
    assert(dec_value(s2) == dec_value(s3) * 10 + crate::text::digit_val(s[1]));
    assert(dec_value(s1) == dec_value(s2) * 10 + crate::text::digit_val(s[2]));
    assert(dec_value(s) == dec_value(s1) * 10 + crate::text::digit_val(s[3]));
}

impl Timestamp {
    /// Formats the timestamp as `YYYY-MM-DDTHH:MM:SS`.
    pub fn format(&self) -> (r: String)
        ensures
            r@ == spec_format_timestamp(*self),
    {
        proof {
            reveal_strlit("T");
            reveal_strlit(":");
        }
        let mut s = self.date.format();
        s.append("T");
        let h = pad_dec(self.hour as u64, 2);
        s.append(h.as_str());
        s.append(":");
        let mi = pad_dec(self.minute as u64, 2);
        s.append(mi.as_str());
        s.append(":");
        let se = pad_dec(self.second as u64, 2);
        s.append(se.as_str());
        proof {
            assert("T"@ =~= seq!['T']);
            assert(":"@ =~= seq![':']);
            assert(s@ =~= spec_format_timestamp(*self));
        }
        s
    }
}

} // verus!
