//! Calendar dates of the proleptic Gregorian calendar, without a time of day.

use crate::error::ScanError;
use crate::number::{digit_char, digit_text, digit_value, is_digit};
use vstd::string::StringExecFns;
use chrono::Datelike;
use vstd::prelude::*;

verus! {

/// Leap years of the proleptic Gregorian calendar.
pub open spec fn is_leap_year(year: int) -> bool {
    year % 4 == 0 && (year % 100 != 0 || year % 400 == 0)
}

/// Number of days of month `month` (1 to 12) in `year`; 0 for any other month.
pub open spec fn days_in_month(year: int, month: int) -> int {
    if month == 2 {
        if is_leap_year(year) {
            29
        } else {
            28
        }
    } else if month == 4 || month == 6 || month == 9 || month == 11 {
        30
    } else if 1 <= month <= 12 {
        31
    } else {
        0
    }
}

/// `year`, `month`, `day` name a day that exists.
pub open spec fn is_calendar_date(year: int, month: int, day: int) -> bool {
    1 <= month <= 12 && 1 <= day <= days_in_month(year, month)
}

/// The day before `(year, month, day)`.
pub open spec fn day_before(year: int, month: int, day: int) -> (int, int, int) {
    if day > 1 {
        (year, month, day - 1)
    } else if month > 1 {
        (year, month - 1, days_in_month(year, month - 1))
    } else {
        (year - 1, 12, 31)
    }
}

/// The day `a` is the day `b` or a later one; each is a year, a month and a
/// day of the month.
pub open spec fn not_before(a: (int, int, int), b: (int, int, int)) -> bool {
    a.0 > b.0 || (a.0 == b.0 && (a.1 > b.1 || (a.1 == b.1 && a.2 >= b.2)))
}

/// A day of the calendar.
#[derive(Clone, Copy, Debug, PartialEq, Eq, Structural)]
pub struct CalendarDate {
    year: i32,
    month: u32,
    day: u32,
}

impl CalendarDate {
    /// The date as `(year, month, day)`.
    pub closed spec fn ymd(self) -> (int, int, int) {
        (self.year as int, self.month as int, self.day as int)
    }

    /// The date names a day that exists.
    pub open spec fn wf(self) -> bool {
        is_calendar_date(self.ymd().0, self.ymd().1, self.ymd().2)
    }

    /// `self` is the same day as `other` or a later one.
    pub open spec fn on_or_after(self, other: CalendarDate) -> bool {
        not_before(self.ymd(), other.ymd())
    }

    /// The date `year`-`month`-`day`, if that day exists.
    pub fn new(year: i32, month: u32, day: u32) -> (r: Option<CalendarDate>)
        ensures
            match r {
                Some(date) => date.wf() && date.ymd() == (year as int, month as int, day as int),
                None => !is_calendar_date(year as int, month as int, day as int),
            },
    {
        if month < 1 || month > 12 || day < 1 || day > month_length(year, month) {
            None
        } else {
            Some(CalendarDate { year, month, day })
        }
    }

    pub fn year(&self) -> (r: i32)
        ensures
            r == self.ymd().0,
    {
        self.year
    }

    pub fn month(&self) -> (r: u32)
        ensures
            r == self.ymd().1,
    {
        self.month
    }

    pub fn day(&self) -> (r: u32)
        ensures
            r == self.ymd().2,
    {
        self.day
    }

    /// Tells whether `self` is `other` or a later day.
    pub fn at_least(&self, other: &CalendarDate) -> (r: bool)
        ensures
            r == self.on_or_after(*other),
    {
        self.year > other.year || (self.year == other.year && (self.month > other.month || (
        self.month == other.month && self.day >= other.day)))
    }

    /// Writes the day in the shape `YYYY/MM/DD`; `None` where the year does
    /// not lie from 0 to 9999.
    pub fn to_text(&self) -> (r: Option<String>)
        requires
            self.wf(),
        ensures
            match r {
                Some(text) => 0 <= self.ymd().0 <= 9999 && text@ == date_text(self.ymd()),
                None => !(0 <= self.ymd().0 <= 9999),
            },
    {
        if self.year < 0 || self.year > 9999 {
            return None;
        }
        let year = self.year as u32;
        let mut out = String::new();
        write_two_digits(&mut out, year / 100);
        write_two_digits(&mut out, year % 100);
        out.append("/");
        write_two_digits(&mut out, self.month);
        out.append("/");
        write_two_digits(&mut out, self.day);
        proof {
            reveal_strlit("/");
            assert("/"@ =~= seq!['/']);
            assert(out@ =~= date_text(self.ymd()));
        }
        Some(out)
    }

    /// The day before `self`; `None` only where the year would leave `i32`.
    pub fn previous_day(&self) -> (r: Option<CalendarDate>)
        requires
            self.wf(),
        ensures
            match r {
                Some(date) => date.wf() && date.ymd() == day_before(
                    self.ymd().0,
                    self.ymd().1,
                    self.ymd().2,
                ),
                None => self.ymd() == (i32::MIN as int, 1int, 1int),
            },
    {
        if self.day > 1 {
            Some(CalendarDate { year: self.year, month: self.month, day: self.day - 1 })
        } else if self.month > 1 {
            let month = self.month - 1;
            Some(CalendarDate { year: self.year, month, day: month_length(self.year, month) })
        } else if self.year > i32::MIN {
            Some(CalendarDate { year: self.year - 1, month: 12, day: 31 })
        } else {
            None
        }
    }
}

/// Tells whether `year` is a leap year.
pub fn leap_year(year: i32) -> (r: bool)
    ensures
        r == is_leap_year(year as int),
{
    // The calendar repeats every 400 years: move the year to one that is not
    // negative, where the remainders are plain.
    let shifted: i64 = year as i64 + 2_147_484_000;
    assert(is_leap_year(year as int) == is_leap_year(shifted as int)) by {
        assert(shifted == year + 400 * 5_368_710);
    }
    shifted % 4 == 0 && (shifted % 100 != 0 || shifted % 400 == 0)
}

/// Number of days of `month` in `year`.
pub fn month_length(year: i32, month: u32) -> (r: u32)
    ensures
        r == days_in_month(year as int, month as int),
{
    if month == 2 {
        if leap_year(year) {
            29
        } else {
            28
        }
    } else if month == 4 || month == 6 || month == 9 || month == 11 {
        30
    } else if 1 <= month && month <= 12 {
        31
    } else {
        0
    }
}

/// The error of chrono's parsers.
#[verifier::external_type_specification]
#[verifier::external_body]
pub struct ExDateParseError(chrono::format::ParseError);

/// What chrono reads from `text` under the format string `format`: the year,
/// month and day of the date, or `None` where it reports an error.
pub uninterp spec fn parsed_date(text: Seq<char>, format: Seq<char>) -> Option<(i32, u32, u32)>;

/// The format of a date written as year, month and day with slashes.
pub open spec fn ymd_format() -> Seq<char> {
    seq!['%', 'Y', '/', '%', 'm', '/', '%', 'd']
}

/// `text` has the shape `YYYY/MM/DD`: four digits, two digits and two
/// digits, with a slash between them and nothing else.
pub open spec fn is_plain_ymd(text: Seq<char>) -> bool {
    &&& text.len() == 10
    &&& text[4] == '/'
    &&& text[7] == '/'
    &&& forall|i: int| 0 <= i < 10 && i != 4 && i != 7 ==> is_digit(#[trigger] text[i])
}

/// The year, month and day that a text of the shape `YYYY/MM/DD` writes.
pub open spec fn plain_ymd(text: Seq<char>) -> (int, int, int) {
    (
        1000 * digit_value(text[0]) + 100 * digit_value(text[1]) + 10 * digit_value(text[2])
            + digit_value(text[3]),
        10 * digit_value(text[5]) + digit_value(text[6]),
        10 * digit_value(text[8]) + digit_value(text[9]),
    )
}

/// `text` has the shape `YYYY/MM/DD` and writes a day that exists.
pub open spec fn writes_calendar_date(text: Seq<char>) -> bool {
    is_plain_ymd(text) && is_calendar_date(plain_ymd(text).0, plain_ymd(text).1, plain_ymd(text).2)
}

/// Calls chrono's `NaiveDate::parse_from_str` and takes the year, month and
/// day of the date it returns. Claimed of chrono: the outcome depends on the
/// two strings alone, and under the format `%Y/%m/%d` a text of the shape
/// `YYYY/MM/DD` that writes a day of the calendar is read as that day.
#[verifier::external_body]
fn parse_with_format(text: &str, format: &str) -> (r: Result<
    (i32, u32, u32),
    chrono::format::ParseError,
>)
    ensures
        match r {
            Ok(ymd) => parsed_date(text@, format@) == Some(ymd),
            Err(_) => parsed_date(text@, format@) is None,
        },
        format@ == ymd_format() && writes_calendar_date(text@) ==> r is Ok && (r->Ok_0.0 as int, r->Ok_0.1 as int, r->Ok_0.2 as int) == plain_ymd(
            text@,
        ),
{
    chrono::NaiveDate::parse_from_str(text, format).map(|d| (d.year(), d.month(), d.day()))
}

/// `n` written with two digits, for `n` below 100.
pub open spec fn two_digits(n: int) -> Seq<char> {
    seq![digit_char(n / 10), digit_char(n % 10)]
}

/// `n` written with four digits, for `n` below 10000.
pub open spec fn four_digits(n: int) -> Seq<char> {
    two_digits(n / 100) + two_digits(n % 100)
}

/// The day `(year, month, day)` written in the shape `YYYY/MM/DD`, for a
/// year from 0 to 9999.
pub open spec fn date_text(ymd: (int, int, int)) -> Seq<char> {
    four_digits(ymd.0) + seq!['/'] + two_digits(ymd.1) + seq!['/'] + two_digits(ymd.2)
}

/// A day of a year from 0 to 9999, written in the shape `YYYY/MM/DD`, reads
/// as the same day.
pub proof fn lemma_date_text_reads_back(ymd: (int, int, int))
    requires
        0 <= ymd.0 <= 9999,
        is_calendar_date(ymd.0, ymd.1, ymd.2),
    ensures
        writes_calendar_date(date_text(ymd)),
        plain_ymd(date_text(ymd)) == ymd,
{
    let text = date_text(ymd);
    let (y, m, d) = ymd;
    assert(text.len() == 10);
    assert(text[0] == digit_char(y / 100 / 10));
    assert(text[1] == digit_char(y / 100 % 10));
    assert(text[2] == digit_char(y % 100 / 10));
    assert(text[3] == digit_char(y % 100 % 10));
    assert(text[4] == '/');
    assert(text[5] == digit_char(m / 10));
    assert(text[6] == digit_char(m % 10));
    assert(text[7] == '/');
    assert(text[8] == digit_char(d / 10));
    assert(text[9] == digit_char(d % 10));
    assert forall|k: int| 0 <= k <= 9 implies is_digit(#[trigger] digit_char(k)) && digit_value(
        digit_char(k),
    ) == k by {}
    assert(is_plain_ymd(text)) by {
        assert forall|i: int| 0 <= i < 10 && i != 4 && i != 7 implies is_digit(
            #[trigger] text[i],
        ) by {}
    }
}

/// Writes `n` with two digits.
fn write_two_digits(out: &mut String, n: u32)
    requires
        n < 100,
    ensures
        final(out)@ == old(out)@ + two_digits(n as int),
{
    out.append(digit_text(n / 10));
    out.append(digit_text(n % 10));
    assert(final(out)@ =~= old(out)@ + two_digits(n as int));
}

/// A day that chrono's dates can hold: a day of the calendar in a year from
/// -262144 to 262143.
pub open spec fn clock_day(ymd: (int, int, int)) -> bool {
    is_calendar_date(ymd.0, ymd.1, ymd.2) && -262_144 <= ymd.0 <= 262_143
}

/// Calls chrono's `Local::now` and takes the year, month and day of the
/// local date. Which day comes back depends on the clock, and nothing is
/// claimed of that. Claimed of chrono: every `NaiveDate` is a day of the
/// proleptic Gregorian calendar, and its year, which chrono keeps in the
/// upper 19 bits of an `i32`, lies from -262144 to 262143.
#[verifier::external_body]
fn local_today() -> (r: (i32, u32, u32))
    ensures
        clock_day((r.0 as int, r.1 as int, r.2 as int)),
{
    let today = chrono::Local::now().date_naive();
    (today.year(), today.month(), today.day())
}

/// The date that a parse result stands for: the day it names if that day
/// exists, else nothing.
pub open spec fn date_of_parsed(parsed: Option<(i32, u32, u32)>) -> Option<(int, int, int)> {
    match parsed {
        Some((y, m, d)) => if is_calendar_date(y as int, m as int, d as int) {
            Some((y as int, m as int, d as int))
        } else {
            None
        },
        None => None,
    }
}

/// The date that `text` holds when read as year, month and day with slashes.
pub open spec fn date_in(text: Seq<char>) -> Option<(int, int, int)> {
    date_of_parsed(parsed_date(text, ymd_format()))
}

/// Reads a date written as year, month and day with slashes.
pub fn parse_date(text: &str) -> (r: Result<CalendarDate, ScanError>)
    ensures
        match r {
            Ok(date) => date.wf() && date_in(text@) == Some(date.ymd()),
            Err(e) => e == ScanError::DateFormat && date_in(text@) is None,
        },
        writes_calendar_date(text@) ==> r is Ok && r->Ok_0.ymd() == plain_ymd(text@),
{
    let format = "%Y/%m/%d";
    proof {
        reveal_strlit("%Y/%m/%d");
        assert(format@ =~= ymd_format());
    }
    match parse_with_format(text, format) {
        Ok((year, month, day)) => match CalendarDate::new(year, month, day) {
            Some(date) => Ok(date),
            None => Err(ScanError::DateFormat),
        },
        Err(_) => Err(ScanError::DateFormat),
    }
}

/// The day before `year`-`month`-`day`, where both days exist.
pub fn day_before_ymd(year: i32, month: u32, day: u32) -> (r: Option<CalendarDate>)
    ensures
        match r {
            Some(date) => is_calendar_date(year as int, month as int, day as int) && date.wf()
                && date.ymd() == day_before(year as int, month as int, day as int),
            None => !is_calendar_date(year as int, month as int, day as int) || (year, month, day)
                == (i32::MIN, 1u32, 1u32),
        },
{
    match CalendarDate::new(year, month, day) {
        Some(date) => date.previous_day(),
        None => None,
    }
}

/// The day before the current local date. It always gives a day: the one
/// before the day that the clock shows.
pub fn yesterday() -> (r: Option<CalendarDate>)
    ensures
        r is Some,
        r->0.wf(),
        exists|today: (int, int, int)| #[trigger]
            clock_day(today) && r->0.ymd() == day_before(today.0, today.1, today.2),
{
    let (year, month, day) = local_today();
    assert(clock_day((year as int, month as int, day as int)));
    day_before_ymd(year, month, day)
}

} // verus!
