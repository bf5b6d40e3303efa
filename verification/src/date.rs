//! Calendar dates: the day on which a version of a law takes effect.
//!
//! A date is a day of the proleptic Gregorian calendar. Whether a day exists
//! and which second it begins with are taken from the `chrono` crate.

use vstd::prelude::*;
use chrono::Datelike;
use crate::text::{decimal, natural_text};

verus! {

/// The first year that has dates.
pub const MIN_YEAR: i32 = -262_143;

/// The last year that has dates.
pub const MAX_YEAR: i32 = 262_142;

/// The seconds of a day.
pub const SECONDS_PER_DAY: i64 = 86_400;

/// Leap years are those divisible by four, but of the years that end a
/// century only those divisible by four hundred. Years before year one count
/// on downwards through zero.
pub open spec fn is_leap_year(year: int) -> bool {
    year % 4 == 0 && (year % 100 != 0 || year % 400 == 0)
}

/// The number of days of a year.
pub open spec fn days_in_year(year: int) -> int {
    if is_leap_year(year) {
        366
    } else {
        365
    }
}

/// The number of days of a month, which for February depends on the year.
pub open spec fn days_in_month(year: int, month: int) -> int {
    if month == 2 {
        if is_leap_year(year) {
            29
        } else {
            28
        }
    } else if month == 4 || month == 6 || month == 9 || month == 11 {
        30
    } else {
        31
    }
}

/// The day exists, in a year that has dates.
pub open spec fn is_calendar_date(year: int, month: int, day: int) -> bool {
    &&& MIN_YEAR <= year <= MAX_YEAR
    &&& 1 <= month <= 12
    &&& 1 <= day <= days_in_month(year, month)
}

/// The days from 1 January 1970 to 1 January of `year`, negative for the
/// years before.
pub open spec fn days_before_year(year: int) -> int
    decreases
            (if year >= 1970 {
                year - 1970
            } else {
                1970 - year
            }),
{
    if year == 1970 {
        0
    } else if year > 1970 {
        days_before_year(year - 1) + days_in_year(year - 1)
    } else {
        days_before_year(year + 1) - days_in_year(year)
    }
}

/// The days from 1 January of `year` to the first day of `month`.
pub open spec fn days_before_month(year: int, month: int) -> int
    decreases month,
{
    if month <= 1 {
        0
    } else {
        days_before_month(year, month - 1) + days_in_month(year, month - 1)
    }
}

/// The days from 1 January 1970 to the given day.
pub open spec fn days_since_epoch(year: int, month: int, day: int) -> int {
    days_before_year(year) + days_before_month(year, month) + day - 1
}

/// A date as contracts speak of it.
pub struct DateView {
    pub year: int,
    pub month: int,
    pub day: int,
}

impl DateView {
    /// The day exists.
    pub open spec fn valid(self) -> bool {
        is_calendar_date(self.year, self.month, self.day)
    }

    /// `self` is an earlier day than `other`.
    pub open spec fn precedes(self, other: DateView) -> bool {
        self.year < other.year || (self.year == other.year && (self.month < other.month || (
        self.month == other.month && self.day < other.day)))
    }

    /// The second with which the day begins, counted from the beginning of
    /// 1 January 1970, in universal time and without leap seconds.
    pub open spec fn seconds(self) -> int {
        SECONDS_PER_DAY * days_since_epoch(self.year, self.month, self.day)
    }

    /// The date as ISO 8601 writes it: year, month and day with hyphens
    /// between them, the year with four digits, month and day with two. A
    /// year that four digits cannot hold has its sign in front.
    pub open spec fn iso(self) -> Seq<char> {
        year_text(self.year) + seq!['-'] + zero_padded(self.month as nat, 2) + seq!['-']
            + zero_padded(self.day as nat, 2)
    }
}

/// A number in base ten with zeros in front until it has `width` digits.
pub open spec fn zero_padded(n: nat, width: nat) -> Seq<char> {
    let digits = natural_text(n);
    if digits.len() >= width {
        digits
    } else {
        Seq::new((width - digits.len()) as nat, |i: int| '0') + digits
    }
}

/// A year as ISO 8601 writes it.
pub open spec fn year_text(year: int) -> Seq<char> {
    if 0 <= year <= 9999 {
        zero_padded(year as nat, 4)
    } else if year < 0 {
        seq!['-'] + zero_padded((-year) as nat, 4)
    } else {
        seq!['+'] + zero_padded(year as nat, 4)
    }
}

/// A day of the calendar.
#[derive(Debug, Clone, Copy, PartialEq, Eq, PartialOrd, Ord, Hash, Structural)]
pub struct Date {
    year: i32,
    month: u32,
    day: u32,
}

impl View for Date {
    type V = DateView;

    closed spec fn view(&self) -> DateView {
        DateView { year: self.year as int, month: self.month as int, day: self.day as int }
    }
}

/// `NaiveDate::from_ymd_opt` of `chrono`, with the date it makes read back
/// through `Datelike`.
///
/// The claim: a date comes back exactly for the days that exist, in the years
/// between `NaiveDate::MIN` and `NaiveDate::MAX`, and it has the year, month
/// and day it was asked for.
#[verifier::external_body]
fn calendar_date(year: i32, month: u32, day: u32) -> (date: Option<(i32, u32, u32)>)
    ensures
        date == if is_calendar_date(year as int, month as int, day as int) {
            Some((year, month, day))
        } else {
            None
        },
{
    chrono::NaiveDate::from_ymd_opt(year, month, day).map(|d| (d.year(), d.month(), d.day()))
}

/// `DateTime::<Utc>::timestamp` of `chrono`, at the beginning of a day.
///
/// The claim: the result is the number of seconds, leap seconds left out,
/// from the beginning of 1 January 1970 to the beginning of the day.
#[verifier::external_body]
fn seconds_at_midnight(year: i32, month: u32, day: u32) -> (seconds: i64)
    requires
        is_calendar_date(year as int, month as int, day as int),
    ensures
        seconds == SECONDS_PER_DAY * days_since_epoch(year as int, month as int, day as int),
{
    chrono::NaiveDate::from_ymd_opt(year, month, day).unwrap().and_time(
        chrono::NaiveTime::MIN,
    ).and_utc().timestamp()
}

impl Date {
    #[verifier::type_invariant]
    spec fn is_a_day(self) -> bool {
        is_calendar_date(self.year as int, self.month as int, self.day as int)
    }

    /// The date of the given day, if there is such a day.
    pub fn from_ymd(year: i32, month: u32, day: u32) -> (date: Option<Date>)
        ensures
            date is Some <==> is_calendar_date(year as int, month as int, day as int),
            date matches Some(d) ==> d@ == (DateView {
                year: year as int,
                month: month as int,
                day: day as int,
            }),
    {
        match calendar_date(year, month, day) {
            Some((year, month, day)) => Some(Date { year, month, day }),
            None => None,
        }
    }

    /// The year, counted as the calendar of today counts it, with the year
    /// zero before year one.
    pub fn year(&self) -> (year: i32)
        ensures
            year == self@.year,
            self@.valid(),
    {
        proof {
            use_type_invariant(self);
        }
        self.year
    }

    /// The month, from one for January on.
    pub fn month(&self) -> (month: u32)
        ensures
            month == self@.month,
            self@.valid(),
    {
        proof {
            use_type_invariant(self);
        }
        self.month
    }

    /// The day of the month, from one on.
    pub fn day(&self) -> (day: u32)
        ensures
            day == self@.day,
            self@.valid(),
    {
        proof {
            use_type_invariant(self);
        }
        self.day
    }

    /// Whether this is an earlier day than `other`.
    pub fn is_before(&self, other: &Date) -> (before: bool)
        ensures
            before == self@.precedes(other@),
    {
        self.year < other.year || (self.year == other.year && (self.month < other.month || (
        self.month == other.month && self.day < other.day)))
    }

    /// The second with which the day begins.
    pub fn timestamp(&self) -> (seconds: i64)
        ensures
            seconds == self@.seconds(),
    {
        proof {
            use_type_invariant(self);
        }
        seconds_at_midnight(self.year, self.month, self.day)
    }

    /// The date as ISO 8601 writes it, `2017-04-27` for instance.
    pub fn iso(&self) -> (text: String)
        ensures
            text@ == self@.iso(),
    {
        proof {
            use_type_invariant(self);
            reveal_strlit("-");
            reveal_strlit("+");
        }
        let mut text = String::new();
        if self.year < 0 {
            text.append("-");
            push_padded(&mut text, (0i64 - self.year as i64) as u32, 4);
        } else if self.year > 9999 {
            text.append("+");
            push_padded(&mut text, self.year as u32, 4);
        } else {
            push_padded(&mut text, self.year as u32, 4);
        }
        assert(text@ =~= year_text(self.year as int));
        text.append("-");
        push_padded(&mut text, self.month, 2);
        text.append("-");
        push_padded(&mut text, self.day, 2);
        assert(text@ =~= self@.iso());
        text
    }
}

/// Write `n` behind what `out` holds, with zeros in front of it until it has
/// `width` digits.
fn push_padded(out: &mut String, n: u32, width: usize)
    ensures
        final(out)@ == old(out)@ + zero_padded(n as nat, width as nat),
{
    proof {
        reveal_strlit("0");
    }
    let digits = decimal(n);
    let len = digits.as_str().unicode_len();
    let mut k: usize = len;
    while k < width
        invariant
            len == natural_text(n as nat).len(),
            len <= k,
            k <= width || k == len,
            out@ =~= old(out)@ + Seq::new((k - len) as nat, |i: int| '0'),
        decreases width - k,
    {
        let ghost before = out@;
        out.append("0");
        k += 1;
        proof {
            reveal_strlit("0");
            assert(out@ =~= before + seq!['0']);
            assert(out@ =~= old(out)@ + Seq::new((k - len) as nat, |i: int| '0'));
        }
    }
    out.append(digits.as_str());
    assert(out@ =~= old(out)@ + zero_padded(n as nat, width as nat));
}

/// From one new year to the next it is as many days as the year has.
proof fn lemma_next_year(year: int)
    ensures
        days_before_year(year + 1) == days_before_year(year) + days_in_year(year),
{
}

/// Later years begin later, by at least the length of the years between.
proof fn lemma_years_increase(first: int, second: int)
    requires
        first < second,
    ensures
        days_before_year(first) + days_in_year(first) <= days_before_year(second),
    decreases second - first,
{
    lemma_next_year(second - 1);
    if first < second - 1 {
        lemma_years_increase(first, second - 1);
    }
}

/// Later months begin later, by at least the length of the months between.
proof fn lemma_months_increase(year: int, first: int, second: int)
    requires
        1 <= first < second,
    ensures
        days_before_month(year, first) + days_in_month(year, first) <= days_before_month(
            year,
            second,
        ),
    decreases second - first,
{
    if first < second - 1 {
        lemma_months_increase(year, first, second - 1);
    }
}

/// The months of a year lie within the year.
proof fn lemma_month_in_year(year: int, month: int)
    requires
        1 <= month <= 12,
    ensures
        0 <= days_before_month(year, month),
        days_before_month(year, month) + days_in_month(year, month) <= days_in_year(year),
{
    reveal_with_fuel(days_before_month, 13);
}

/// A later day begins with a later second: the order of dates is the order
/// of their timestamps.
pub proof fn lemma_later_day_later_second(first: DateView, second: DateView)
    requires
        first.valid(),
        second.valid(),
        first.precedes(second),
    ensures
        first.seconds() < second.seconds(),
{
    lemma_month_in_year(first.year, first.month);
    lemma_month_in_year(second.year, second.month);
    if first.year < second.year {
        lemma_years_increase(first.year, second.year);
    } else if first.month < second.month {
        lemma_months_increase(first.year, first.month, second.month);
    }
    assert(days_since_epoch(first.year, first.month, first.day) < days_since_epoch(
        second.year,
        second.month,
        second.day,
    ));
}

/// Of two days, one precedes the other or they are the same day.
pub proof fn lemma_dates_are_ordered(first: DateView, second: DateView)
    ensures
        first.precedes(second) || second.precedes(first) || first == second,
        !(first.precedes(second) && second.precedes(first)),
        !first.precedes(first),
{
}

} // verus!
