//! Calendar dates and timestamps held as plain fields.

use vstd::prelude::*;
use chrono::Datelike;
use crate::text::{digit_char, decimal, digit_text, push_decimal};

verus! {

/// Earliest year that a date may have.
pub const MIN_YEAR: i32 = -262143;

/// Latest year that a date may have.
pub const MAX_YEAR: i32 = 262142;

/// A year of the proleptic Gregorian calendar that has a 29th of February.
pub open spec fn is_leap_year(year: int) -> bool {
    year % 4 == 0 && (year % 100 != 0 || year % 400 == 0)
}

/// Number of days of `month` (1 to 12) in `year`.
pub open spec fn days_in_month(year: int, month: int) -> int {
    if month == 2 {
        if is_leap_year(year) {
            29
        } else {
            28
        }
    } else if month == 4 || month == 6 || month == 9 || month == 11 {
        30
    } else {
        31
    }
}

/// Whether `year`-`month`-`day` names a day of the supported calendar range.
pub open spec fn is_valid_date(year: int, month: int, day: int) -> bool {
    &&& MIN_YEAR <= year <= MAX_YEAR
    &&& 1 <= month <= 12
    &&& 1 <= day <= days_in_month(year, month)
}

/// Days of a common year that lie before the first day of `month`.
pub open spec fn days_before_month_common(month: int) -> int {
    if month <= 1 {
        0
    } else if month == 2 {
        31
    } else if month == 3 {
        59
    } else if month == 4 {
        90
    } else if month == 5 {
        120
    } else if month == 6 {
        151
    } else if month == 7 {
        181
    } else if month == 8 {
        212
    } else if month == 9 {
        243
    } else if month == 10 {
        273
    } else if month == 11 {
        304
    } else {
        334
    }
}

/// Day of the year, starting from 1 on the first of January.
pub open spec fn ordinal_of(year: int, month: int, day: int) -> int {
    days_before_month_common(month) + (if month > 2 && is_leap_year(year) {
        1int
    } else {
        0int
    }) + day
}

/// Quarter of the year (1 to 4) that `month` falls in.
pub open spec fn quarter_of(month: int) -> int {
    (month - 1) / 3 + 1
}

/// The ISO 8601 week number of a date.
pub uninterp spec fn iso_week_number(year: i32, month: u32, day: u32) -> u32;

/// A day of the proleptic Gregorian calendar.
#[derive(Clone, Copy, Debug, PartialEq, Eq)]
pub struct CalendarDate {
    pub year: i32,
    pub month: u32,
    pub day: u32,
}

impl CalendarDate {
    pub open spec fn wf(self) -> bool {
        is_valid_date(self.year as int, self.month as int, self.day as int)
    }

    pub open spec fn ordinal_spec(self) -> int {
        ordinal_of(self.year as int, self.month as int, self.day as int)
    }

    /// Makes a date from its year, month and day, if that day exists.
    pub fn new(year: i32, month: u32, day: u32) -> (r: Option<CalendarDate>)
        ensures
            r is Some <==> is_valid_date(year as int, month as int, day as int),
            r matches Some(d) ==> d.year == year && d.month == month && d.day == day,
    {
        if year < MIN_YEAR || year > MAX_YEAR || month < 1 || month > 12 || day < 1 {
            return None;
        }
        if day > month_length(year, month) {
            return None;
        }
        Some(CalendarDate { year, month, day })
    }

    /// Day of the year, starting from 1 on the first of January.
    pub fn ordinal(&self) -> (r: u32)
        requires
            self.wf(),
        ensures
            r as int == self.ordinal_spec(),
    {
        let before: u32 = if self.month == 1 {
            0
        } else if self.month == 2 {
            31
        } else if self.month == 3 {
            59
        } else if self.month == 4 {
            90
        } else if self.month == 5 {
            120
        } else if self.month == 6 {
            151
        } else if self.month == 7 {
            181
        } else if self.month == 8 {
            212
        } else if self.month == 9 {
            243
        } else if self.month == 10 {
            273
        } else if self.month == 11 {
            304
        } else {
            334
        };
        let leap_day: u32 = if self.month > 2 && is_leap(self.year) {
            1
        } else {
            0
        };
        before + leap_day + self.day
    }

    /// Quarter of the year (1 to 4).
    pub fn quarter(&self) -> (r: u32)
        requires
            self.wf(),
        ensures
            r as int == quarter_of(self.month as int),
            1 <= r <= 4,
    {
        (self.month - 1) / 3 + 1
    }

    /// ISO 8601 week number (1 to 53).
    pub fn iso_week(&self) -> (r: u32)
        requires
            self.wf(),
        ensures
            r == iso_week_number(self.year, self.month, self.day),
            1 <= r <= 53,
    {
        iso_week_of(self.year, self.month, self.day)
    }
}

/// A point in time to the second, without a time zone.
#[derive(Clone, Copy, Debug, PartialEq, Eq)]
pub struct Timestamp {
    pub date: CalendarDate,
    pub hour: u32,
    pub minute: u32,
    pub second: u32,
}

impl Timestamp {
    pub open spec fn wf(self) -> bool {
        self.date.wf() && self.hour < 24 && self.minute < 60 && self.second < 60
    }

    /// The fields in the order in which they compare.
    pub open spec fn fields(self) -> (int, int, int, int, int, int) {
        (
            self.date.year as int,
            self.date.month as int,
            self.date.day as int,
            self.hour as int,
            self.minute as int,
            self.second as int,
        )
    }

    /// `self` lies strictly before `other`.
    pub open spec fn precedes(self, other: Timestamp) -> bool {
        let (a, b) = (self.fields(), other.fields());
        ||| a.0 < b.0
        ||| a.0 == b.0 && a.1 < b.1
        ||| a.0 == b.0 && a.1 == b.1 && a.2 < b.2
        ||| a.0 == b.0 && a.1 == b.1 && a.2 == b.2 && a.3 < b.3
        ||| a.0 == b.0 && a.1 == b.1 && a.2 == b.2 && a.3 == b.3 && a.4 < b.4
        ||| a.0 == b.0 && a.1 == b.1 && a.2 == b.2 && a.3 == b.3 && a.4 == b.4 && a.5 < b.5
    }

    /// Makes a timestamp from its fields, if they name an existing second.
    pub fn new(year: i32, month: u32, day: u32, hour: u32, minute: u32, second: u32) -> (r: Option<Timestamp>)
        ensures
            r is Some <==> (is_valid_date(year as int, month as int, day as int) && hour < 24 && minute < 60 && second < 60),
            r matches Some(t) ==> t.date.year == year && t.date.month == month && t.date.day == day
                && t.hour == hour && t.minute == minute && t.second == second,
    {
        if hour >= 24 || minute >= 60 || second >= 60 {
            return None;
        }
        match CalendarDate::new(year, month, day) {
            None => None,
            Some(date) => Some(Timestamp { date, hour, minute, second }),
        }
    }

    /// Whether `self` lies strictly before `other`.
    pub fn is_before(&self, other: &Timestamp) -> (r: bool)
        ensures
            r == self.precedes(*other),
    {
        let a = (self.date.year, self.date.month, self.date.day);
        let b = (other.date.year, other.date.month, other.date.day);
        if a.0 != b.0 {
            return a.0 < b.0;
        }
        if a.1 != b.1 {
            return a.1 < b.1;
        }
        if a.2 != b.2 {
            return a.2 < b.2;
        }
        if self.hour != other.hour {
            return self.hour < other.hour;
        }
        if self.minute != other.minute {
            return self.minute < other.minute;
        }
        self.second < other.second
    }
}

/// `n` (0 to 99) in two digits.
pub open spec fn two_digits(n: int) -> Seq<char> {
    seq![digit_char(n / 10), digit_char(n % 10)]
}

/// `n` (0 to 9999) in four digits.
pub open spec fn four_digits(n: int) -> Seq<char> {
    seq![digit_char(n / 1000), digit_char(n / 100 % 10), digit_char(n / 10 % 10), digit_char(n % 10)]
}

/// A year in four digits; one outside 0 to 9999 with its sign.
pub open spec fn year_text(y: int) -> Seq<char> {
    if 0 <= y <= 9999 {
        four_digits(y)
    } else if y > 9999 {
        seq!['+'] + decimal(y as nat)
    } else if y >= -9999 {
        seq!['-'] + four_digits(-y)
    } else {
        seq!['-'] + decimal((-y) as nat)
    }
}

/// The label of a timestamp in backup file names: `YYYY-MM-DDTHH-MM-SS`.
pub open spec fn timestamp_label(t: Timestamp) -> Seq<char> {
    year_text(t.date.year as int) + seq!['-'] + two_digits(t.date.month as int) + seq!['-']
        + two_digits(t.date.day as int) + seq!['T'] + two_digits(t.hour as int) + seq!['-']
        + two_digits(t.minute as int) + seq!['-'] + two_digits(t.second as int)
}

fn push_two_digits(s: &mut String, n: u32)
    requires
        n < 100,
    ensures
        final(s)@ == old(s)@ + two_digits(n as int),
{
    s.append(digit_text((n / 10) as u64));
    s.append(digit_text((n % 10) as u64));
    assert(final(s)@ =~= old(s)@ + two_digits(n as int));
}

fn push_four_digits(s: &mut String, n: u32)
    requires
        n < 10000,
    ensures
        final(s)@ == old(s)@ + four_digits(n as int),
{
    s.append(digit_text((n / 1000) as u64));
    s.append(digit_text((n / 100 % 10) as u64));
    s.append(digit_text((n / 10 % 10) as u64));
    s.append(digit_text((n % 10) as u64));
    assert(final(s)@ =~= old(s)@ + four_digits(n as int));
}

/// The label of `t` in backup file names: `YYYY-MM-DDTHH-MM-SS`.
pub fn label(t: &Timestamp) -> (r: String)
    requires
        t.wf(),
    ensures
        r@ == timestamp_label(*t),
{
    proof {
        reveal_strlit("-");
        reveal_strlit("+");
        reveal_strlit("T");
    }
    let mut s = String::new();
    let y = t.date.year;
    if 0 <= y && y <= 9999 {
        push_four_digits(&mut s, y as u32);
    } else if y > 9999 {
        s.append("+");
        push_decimal(&mut s, y as u64);
    } else if y >= -9999 {
        s.append("-");
        push_four_digits(&mut s, (-y) as u32);
    } else {
        s.append("-");
        push_decimal(&mut s, (-(y as i64)) as u64);
    }
    assert(s@ =~= year_text(y as int));
    s.append("-");
    push_two_digits(&mut s, t.date.month);
    s.append("-");
    push_two_digits(&mut s, t.date.day);
    s.append("T");
    push_two_digits(&mut s, t.hour);
    s.append("-");
    push_two_digits(&mut s, t.minute);
    s.append("-");
    push_two_digits(&mut s, t.second);
    assert(s@ =~= timestamp_label(*t));
    s
}

/// Whether `year` is a leap year.
pub fn is_leap(year: i32) -> (r: bool)
    requires
        MIN_YEAR <= year <= MAX_YEAR,
    ensures
        r == is_leap_year(year as int),
{
    // 262400 is a multiple of 400, so the shift keeps every remainder below.
    let shifted: u32 = (year as i64 + 262400) as u32;
    assert(shifted as int % 4 == year as int % 4);
    assert(shifted as int % 100 == year as int % 100);
    assert(shifted as int % 400 == year as int % 400);
    shifted % 4 == 0 && (shifted % 100 != 0 || shifted % 400 == 0)
}

/// Number of days of `month` in `year`.
pub fn month_length(year: i32, month: u32) -> (r: u32)
    requires
        MIN_YEAR <= year <= MAX_YEAR,
        1 <= month <= 12,
    ensures
        r as int == days_in_month(year as int, month as int),
{
    if month == 2 {
        if is_leap(year) {
            29
        } else {
            28
        }
    } else if month == 4 || month == 6 || month == 9 || month == 11 {
        30
    } else {
        31
    }
}

/// Relies on chrono's `NaiveDate::from_ymd_opt`, which accepts every valid date
/// from `MIN_YEAR` to `MAX_YEAR`, and on `IsoWeek::week`, which ranges from 1 to 53.
#[verifier::external_body]
fn iso_week_of(year: i32, month: u32, day: u32) -> (r: u32)
    requires
        is_valid_date(year as int, month as int, day as int),
    ensures
        r == iso_week_number(year, month, day),
        1 <= r <= 53,
{
    chrono::NaiveDate::from_ymd_opt(year, month, day).unwrap().iso_week().week()
}

/// Two valid dates of one year with the same day of the year are the same date.
pub proof fn lemma_ordinal_injective(a: CalendarDate, b: CalendarDate)
    requires
        a.wf(),
        b.wf(),
        a.year == b.year,
        a.ordinal_spec() == b.ordinal_spec(),
    ensures
        a == b,
{
}

} // verus!
