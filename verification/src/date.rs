//! Calendar dates as plain year/month/day values.
//!
//! The engine reads dates only through the operations here: parsing from the
//! `MM/DD/YYYY` format, comparison, stepping forward by whole months (the day
//! of month is clamped to the target month's length), and counting the whole
//! years between two dates. All of it is verified against the spec functions
//! in this module.
use vstd::prelude::*;

use vstd::string::StrSliceExecFns;

verus! {

/// A calendar date. A value is meaningful when [`Date::valid`] holds.
#[derive(Debug, Clone, Copy, PartialEq, Eq, Structural)]
pub struct Date {
    pub year: u32,
    pub month: u32,
    pub day: u32,
}

/// A Gregorian leap year: divisible by four, except century years not
/// divisible by four hundred.
pub open spec fn spec_is_leap_year(y: int) -> bool {
    y % 4 == 0 && (y % 100 != 0 || y % 400 == 0)
}

/// The number of days of month `m` of year `y`.
pub open spec fn spec_days_in_month(y: int, m: int) -> int {
    if m == 2 {
        if spec_is_leap_year(y) {
            29
        } else {
            28
        }
    } else if m == 4 || m == 6 || m == 9 || m == 11 {
        30
    } else {
        31
    }
}

/// Strict chronological order: by year, then month, then day.
pub open spec fn spec_date_lt(a: Date, b: Date) -> bool {
    a.year < b.year || (a.year == b.year && (a.month < b.month || (a.month == b.month
        && a.day < b.day)))
}

/// Chronological order or equality.
pub open spec fn spec_date_le(a: Date, b: Date) -> bool {
    spec_date_lt(a, b) || a == b
}

/// A day count that grows strictly with chronological order, used as a
/// termination measure when walking a schedule forward.
pub open spec fn date_ord(d: Date) -> int {
    d.year * 372 + (d.month - 1) * 31 + d.day
}

/// The date `k` months past `d`: the month index advances by `k` and the day
/// is clamped to the target month's length.
pub open spec fn spec_add_months(d: Date, k: int) -> Date {
    let t = d.month - 1 + k;
    let ny = d.year + t / 12;
    let nm = t % 12 + 1;
    let dim = spec_days_in_month(ny, nm);
    Date {
        year: ny as u32,
        month: nm as u32,
        day: if d.day <= dim {
            d.day
        } else {
            dim as u32
        },
    }
}

/// The number of whole years from `base` to `d`: the year difference, less
/// one when `d`'s month and day fall earlier in the year than `base`'s.
/// `None` when that count would be negative, that is, when `d` falls a whole
/// year or more before `base`.
pub open spec fn spec_years_since(d: Date, base: Date) -> Option<u32> {
    let adj: int = if d.month < base.month || (d.month == base.month && d.day < base.day) {
        1
    } else {
        0
    };
    let y = d.year - base.year - adj;
    if y >= 0 {
        Some(y as u32)
    } else {
        None
    }
}

impl Date {
    /// A meaningful calendar date: the month and the day are in range. The
    /// year bound keeps month stepping within `u32`.
    pub open spec fn valid(self) -> bool {
        &&& 1 <= self.month <= 12
        &&& 1 <= self.day <= spec_days_in_month(self.year as int, self.month as int)
        &&& self.year <= 100_000
    }

    /// Whether `self` falls strictly before `other`.
    pub fn lt(self, other: Date) -> (r: bool)
        ensures
            r == spec_date_lt(self, other),
    {
        self.year < other.year || (self.year == other.year && (self.month < other.month || (
        self.month == other.month && self.day < other.day)))
    }

    /// Whether `self` falls on or before `other`.
    pub fn le(self, other: Date) -> (r: bool)
        ensures
            r == spec_date_le(self, other),
    {
        self.lt(other) || (self.year == other.year && self.month == other.month && self.day
            == other.day)
    }

    /// The date `k` months ahead, with the day clamped to the target month.
    pub fn add_months(self, k: u32) -> (r: Date)
        requires
            self.valid(),
            self.year < 100_000,
            1 <= k <= 12,
        ensures
            r == spec_add_months(self, k as int),
            r.valid(),
            r.year <= self.year + 1,
            spec_date_lt(self, r),
    {
        let t = self.month - 1 + k;
        let ny = self.year + t / 12;
        let nm = t % 12 + 1;
        let dim = days_in_month(ny, nm);
        let nd = if self.day <= dim {
            self.day
        } else {
            dim
        };
        Date { year: ny, month: nm, day: nd }
    }

    /// The number of whole years from `base` to `self`, or `None` when `self`
    /// falls before `base` by that count.
    pub fn years_since(self, base: Date) -> (r: Option<u32>)
        ensures
            r == spec_years_since(self, base),
    {
        let adj: i64 = if self.month < base.month || (self.month == base.month && self.day
            < base.day) {
            1
        } else {
            0
        };
        let y: i64 = self.year as i64 - base.year as i64 - adj;
        if y >= 0 {
            Some(y as u32)
        } else {
            None
        }
    }
}

/// The calendar day after `d`: the next day of the month, or the first day
/// of the next month or year.
pub open spec fn spec_next_day(d: Date) -> Date {
    if d.day < spec_days_in_month(d.year as int, d.month as int) {
        Date { year: d.year, month: d.month, day: (d.day + 1) as u32 }
    } else if d.month < 12 {
        Date { year: d.year, month: (d.month + 1) as u32, day: 1 }
    } else {
        Date { year: (d.year + 1) as u32, month: 1, day: 1 }
    }
}

impl Date {
    /// The calendar day after this one.
    pub fn next_day(self) -> (r: Date)
        requires
            self.valid(),
            self.year < 100_000,
        ensures
            r == spec_next_day(self),
            r.valid(),
            spec_date_lt(self, r),
    {
        let dim = days_in_month(self.year, self.month);
        if self.day < dim {
            Date { year: self.year, month: self.month, day: self.day + 1 }
        } else if self.month < 12 {
            Date { year: self.year, month: self.month + 1, day: 1 }
        } else {
            Date { year: self.year + 1, month: 1, day: 1 }
        }
    }
}

/// Chronological order implies a strictly greater day count.
pub proof fn lemma_date_lt_ord(a: Date, b: Date)
    requires
        a.valid(),
        b.valid(),
        spec_date_lt(a, b),
    ensures
        date_ord(a) < date_ord(b),
{
}

/// The number of days of month `m` of year `y`.
pub fn days_in_month(y: u32, m: u32) -> (r: u32)
    ensures
        r == spec_days_in_month(y as int, m as int),
        28 <= r <= 31,
{
    if m == 2 {
        if (y % 4 == 0 && y % 100 != 0) || y % 400 == 0 {
            29
        } else {
            28
        }
    } else if m == 4 || m == 6 || m == 9 || m == 11 {
        30
    } else {
        31
    }
}

/// Whether `c` is a decimal digit.
pub open spec fn is_digit(c: char) -> bool {
    48 <= c as u32 <= 57
}

/// The value of the decimal digit `c`.
pub open spec fn digit_val(c: char) -> u32 {
    (c as u32 - 48) as u32
}

/// The month-day-year reading of `s` under the `MM/DD/YYYY` format: one or
/// two digits of month, a slash, one or two digits of day, a slash, and four
/// digits of year, with nothing following. Digit runs are read greedily, so a
/// single-digit month or day is accepted exactly when a slash follows it.
pub open spec fn spec_parse_mdy(s: Seq<char>) -> Option<Date> {
    if s.len() < 1 || !is_digit(s[0]) {
        None
    } else {
        let ml: int = if s.len() >= 2 && is_digit(s[1]) {
            2
        } else {
            1
        };
        let m: u32 = if ml == 2 {
            (digit_val(s[0]) * 10 + digit_val(s[1])) as u32
        } else {
            digit_val(s[0])
        };
        if s.len() < ml + 2 || s[ml] != '/' || !is_digit(s[ml + 1]) {
            None
        } else {
            let dl: int = if s.len() >= ml + 3 && is_digit(s[ml + 2]) {
                2
            } else {
                1
            };
            let d: u32 = if dl == 2 {
                (digit_val(s[ml + 1]) * 10 + digit_val(s[ml + 2])) as u32
            } else {
                digit_val(s[ml + 1])
            };
            let ys = ml + 1 + dl + 1;
            if s.len() != ys + 4 || s[ys - 1] != '/' || !(is_digit(s[ys]) && is_digit(
                s[ys + 1],
            ) && is_digit(s[ys + 2]) && is_digit(s[ys + 3])) {
                None
            } else {
                let y: u32 = (digit_val(s[ys]) * 1000 + digit_val(s[ys + 1]) * 100 + digit_val(
                    s[ys + 2],
                ) * 10 + digit_val(s[ys + 3])) as u32;
                Some(Date { year: y, month: m, day: d })
            }
        }
    }
}

/// The date that `s` denotes under the `MM/DD/YYYY` format, or `None` when
/// `s` does not fit the format or names no real calendar date.
pub open spec fn spec_parse_date(s: Seq<char>) -> Option<Date> {
    match spec_parse_mdy(s) {
        Some(d) => if d.valid() {
            Some(d)
        } else {
            None
        },
        None => None,
    }
}

/// Parses a date written as `MM/DD/YYYY`, rejecting strings that do not fit
/// the format and month/day values outside the calendar.
pub fn parse_date(s: &str) -> (r: Option<Date>)
    ensures
        r == spec_parse_date(s@),
{
    let n = s.unicode_len();
    if n < 1 || !digit(s.get_char(0)) {
        return None;
    }
    let ml: usize = if n >= 2 && digit(s.get_char(1)) {
        2
    } else {
        1
    };
    let m: u32 = if ml == 2 {
        dval(s.get_char(0)) * 10 + dval(s.get_char(1))
    } else {
        dval(s.get_char(0))
    };
    if n < ml + 2 || s.get_char(ml) != '/' || !digit(s.get_char(ml + 1)) {
        return None;
    }
    let dl: usize = if n >= ml + 3 && digit(s.get_char(ml + 2)) {
        2
    } else {
        1
    };
    let d: u32 = if dl == 2 {
        dval(s.get_char(ml + 1)) * 10 + dval(s.get_char(ml + 2))
    } else {
        dval(s.get_char(ml + 1))
    };
    let ys = ml + 1 + dl + 1;
    if n != ys + 4 || s.get_char(ys - 1) != '/' {
        return None;
    }
    if !(digit(s.get_char(ys)) && digit(s.get_char(ys + 1)) && digit(s.get_char(ys + 2)) && digit(
        s.get_char(ys + 3),
    )) {
        return None;
    }
    let y: u32 = dval(s.get_char(ys)) * 1000 + dval(s.get_char(ys + 1)) * 100 + dval(
        s.get_char(ys + 2),
    ) * 10 + dval(s.get_char(ys + 3));
    let date = Date { year: y, month: m, day: d };
    if 1 <= m && m <= 12 && 1 <= d && d <= days_in_month(y, m) {
        Some(date)
    } else {
        None
    }
}

/// Whether `c` is a decimal digit.
fn digit(c: char) -> (r: bool)
    ensures
        r == is_digit(c),
{
    let v = c as u32;
    48 <= v && v <= 57
}

/// The value of the decimal digit `c`.
fn dval(c: char) -> (r: u32)
    requires
        is_digit(c),
    ensures
        r == digit_val(c),
{
    c as u32 - 48
}

} // verus!
