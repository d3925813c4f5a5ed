//! Timestamps: a local date and time written as `2024-05-06 07:08:09.123`.

use crate::text::{law_padded, law_padded_digits, law_padded_fits, padded};
use vstd::arithmetic::power::{lemma_pow0, lemma_pow1, pow};
use vstd::prelude::*;
use vstd::utf8::*;

verus! {

/// The form of a timestamp, in the notation of `strftime`.
pub const TIMESTAMP_FORMAT: &'static str = "%Y-%m-%d %H:%M:%S%.3f";

/// A date and time of day in the local time zone.
#[derive(Clone, Copy, Debug, PartialEq, Eq, Structural)]
pub struct LocalTime {
    /// The year of the proleptic Gregorian calendar; zero is 1 BCE.
    pub year: i32,
    /// The month, from 1.
    pub month: u32,
    /// The day of the month, from 1.
    pub day: u32,
    /// The hour, from 0.
    pub hour: u32,
    /// The minute, from 0.
    pub minute: u32,
    /// The second, from 0.
    pub second: u32,
    /// The nanosecond, from 0; in a leap second it goes on past the last of second 59.
    pub nanosecond: u32,
}

/// Whether `year` has a 29th of February.
pub open spec fn is_leap_year(year: int) -> bool {
    year % 4 == 0 && (year % 100 != 0 || year % 400 == 0)
}

/// The number of days in a month.
pub open spec fn days_in_month(year: int, month: int) -> int {
    if month == 2 {
        if is_leap_year(year) { 29 } else { 28 }
    } else if month == 4 || month == 6 || month == 9 || month == 11 {
        30
    } else {
        31
    }
}

/// `year`, with at least four digits, and with a sign where it is negative or has more.
pub open spec fn year_text(year: int) -> Seq<char> {
    if 0 <= year <= 9999 {
        padded(year as nat, 4)
    } else if year < 0 {
        seq!['-'] + padded((-year) as nat, 4)
    } else {
        seq!['+'] + padded(year as nat, 4)
    }
}

impl LocalTime {
    /// Whether there is such a day, in a year that the calendar covers.
    pub open spec fn is_day(&self) -> bool {
        &&& -262143 <= self.year <= 262142
        &&& 1 <= self.month <= 12
        &&& 1 <= self.day <= days_in_month(self.year as int, self.month as int)
    }

    /// Whether there is such a time of day.
    pub open spec fn is_time_of_day(&self) -> bool {
        &&& self.hour < 24
        &&& self.minute < 60
        &&& self.second < 60
        &&& self.nanosecond < 1_000_000_000 || (self.second == 59 && self.nanosecond
            < 2_000_000_000)
    }

    /// Whether there is such a date and time.
    pub open spec fn is_valid(&self) -> bool {
        self.is_day() && self.is_time_of_day()
    }

    /// The date and time down to the millisecond; a leap second is second 60.
    pub open spec fn text(&self) -> Seq<char> {
        year_text(self.year as int) + seq!['-'] + padded(self.month as nat, 2) + seq!['-'] + padded(
            self.day as nat,
            2,
        ) + seq![' '] + padded(self.hour as nat, 2) + seq![':'] + padded(self.minute as nat, 2)
            + seq![':'] + padded((self.second + self.nanosecond as int / 1_000_000_000) as nat, 2)
            + seq!['.'] + padded((self.nanosecond as int / 1_000_000 % 1000) as nat, 3)
    }
}

/// Writes a date and time, built by `chrono::NaiveDate::from_ymd_opt` and
/// `NaiveDate::and_hms_nano_opt`, by `chrono::NaiveDateTime::format`.
///
/// Claims that the two build every date and time that there is, in the years that the crate
/// covers, and no other, and that by `TIMESTAMP_FORMAT` the text is `at.text()`. Other formats are
/// left out: on some of them writing panics.
#[verifier::external_body]
fn format_local_time(at: &LocalTime, format: &str) -> (text: Option<String>)
    requires
        format@ == TIMESTAMP_FORMAT@,
    ensures
        text is Some <==> at.is_valid(),
        text matches Some(text) ==> text@ == at.text(),
{
    let day = chrono::NaiveDate::from_ymd_opt(at.year, at.month, at.day)?;
    let time = day.and_hms_nano_opt(at.hour, at.minute, at.second, at.nanosecond)?;
    Some(time.format(format).to_string())
}

/// The timestamp of a date and time, or `None` where there is no such date and time.
pub fn timestamp(at: &LocalTime) -> (stamp: Option<String>)
    ensures
        stamp is Some <==> at.is_valid(),
        stamp matches Some(text) ==> text@ == at.text(),
{
    format_local_time(at, TIMESTAMP_FORMAT)
}

/// Up to the year 9999 every timestamp is 23 ASCII characters long.
pub proof fn law_timestamp_length(at: LocalTime)
    requires
        at.is_valid(),
        0 <= at.year <= 9999,
    ensures
        at.text().len() == 23,
        is_ascii_chars(at.text()),
{
    let second = (at.second + at.nanosecond as int / 1_000_000_000) as nat;
    let millisecond = (at.nanosecond as int / 1_000_000 % 1000) as nat;
    lemma_field(at.year as nat, 4);
    lemma_field(at.month as nat, 2);
    lemma_field(at.day as nat, 2);
    lemma_field(at.hour as nat, 2);
    lemma_field(at.minute as nat, 2);
    lemma_field(second, 2);
    lemma_field(millisecond, 3);
}

proof fn lemma_field(n: nat, width: nat)
    requires
        width == 2 && n < 100 || width == 3 && n < 1000 || width == 4 && n < 10000,
    ensures
        padded(n, width).len() == width,
        is_ascii_chars(padded(n, width)),
{
    law_padded(n, width);
    reveal(pow);
    reveal_with_fuel(pow, 5);
    law_padded_fits(n, width);
}

/// The dates and times that there are: from the year -262143 to 262142, the twelve months, each
/// with its 28, 29, 30 or 31 days, every hour, minute and second of the day, and every nanosecond
/// of it; second 59 may go on for a leap second.
pub proof fn law_dates_and_times_that_there_are(at: LocalTime)
    ensures
        at.is_valid() <==> {
            &&& -262143 <= at.year <= 262142
            &&& 1 <= at.month <= 12
            &&& at.day >= 1
            &&& {
                ||| at.day <= 28
                ||| at.day == 29 && (at.month != 2 || at.year as int % 4 == 0 && (at.year as int
                    % 100 != 0 || at.year as int % 400 == 0))
                ||| at.day == 30 && at.month != 2
                ||| at.day == 31 && (at.month == 1 || at.month == 3 || at.month == 5 || at.month
                    == 7 || at.month == 8 || at.month == 10 || at.month == 12)
            }
            &&& at.hour <= 23
            &&& at.minute <= 59
            &&& at.second <= 59
            &&& at.nanosecond <= 999_999_999 || at.second == 59 && at.nanosecond <= 1_999_999_999
        },
{
}

proof fn lemma_two_digits(n: nat)
    requires
        n < 100,
    ensures
        padded(n, 2).len() == 2,
        padded(n, 2)[0] as int == '0' as int + n / 10,
        padded(n, 2)[1] as int == '0' as int + n % 10,
{
    law_padded_digits(n, 2);
    lemma_field(n, 2);
    lemma_pow0(10);
    lemma_pow1(10);
    assert(n as int / 1 == n);
    assert(padded(n, 2)[0] as int == '0' as int + n as int / 10 % 10);
}

proof fn lemma_three_digits(n: nat)
    requires
        n < 1000,
    ensures
        padded(n, 3).len() == 3,
        padded(n, 3)[0] as int == '0' as int + n / 100,
        padded(n, 3)[1] as int == '0' as int + n / 10 % 10,
        padded(n, 3)[2] as int == '0' as int + n % 10,
{
    law_padded_digits(n, 3);
    lemma_field(n, 3);
    lemma_pow0(10);
    lemma_pow1(10);
    assert(pow(10, 2) == 100) by {
        reveal(pow);
        reveal_with_fuel(pow, 3);
    }
    assert(n as int / 1 == n);
    assert(padded(n, 3)[0] as int == '0' as int + n as int / 100 % 10);
}

/// Where each field of a timestamp stands, counted from its end, and that it is written in decimal
/// digits: milliseconds, seconds, minutes, hours, day and month, with a dot, colons, a space and
/// dashes between them. The milliseconds are cut off, not rounded. What is before the last of the
/// dashes is the year.
pub proof fn law_fields_stand_in_their_places(at: LocalTime)
    requires
        at.is_valid(),
    ensures
        ({
            let t = at.text();
            let n = t.len() as int;
            let second = at.second + at.nanosecond as int / 1_000_000_000;
            let millisecond = at.nanosecond as int / 1_000_000 % 1000;
            &&& n >= 23
            &&& t[n - 1] as int == '0' as int + millisecond % 10
            &&& t[n - 2] as int == '0' as int + millisecond / 10 % 10
            &&& t[n - 3] as int == '0' as int + millisecond / 100
            &&& t[n - 4] == '.'
            &&& t[n - 5] as int == '0' as int + second % 10
            &&& t[n - 6] as int == '0' as int + second / 10
            &&& t[n - 7] == ':'
            &&& t[n - 8] as int == '0' as int + at.minute as int % 10
            &&& t[n - 9] as int == '0' as int + at.minute as int / 10
            &&& t[n - 10] == ':'
            &&& t[n - 11] as int == '0' as int + at.hour as int % 10
            &&& t[n - 12] as int == '0' as int + at.hour as int / 10
            &&& t[n - 13] == ' '
            &&& t[n - 14] as int == '0' as int + at.day as int % 10
            &&& t[n - 15] as int == '0' as int + at.day as int / 10
            &&& t[n - 16] == '-'
            &&& t[n - 17] as int == '0' as int + at.month as int % 10
            &&& t[n - 18] as int == '0' as int + at.month as int / 10
            &&& t[n - 19] == '-'
            &&& t.take(n - 19) == year_text(at.year as int)
        }),
{
    let second = (at.second + at.nanosecond as int / 1_000_000_000) as nat;
    let millisecond = (at.nanosecond as int / 1_000_000 % 1000) as nat;
    lemma_two_digits(at.month as nat);
    lemma_two_digits(at.day as nat);
    lemma_two_digits(at.hour as nat);
    lemma_two_digits(at.minute as nat);
    lemma_two_digits(second);
    lemma_three_digits(millisecond);
    law_year_is_written_in_digits(at.year as int);
    let t = at.text();
    assert(t.take(t.len() - 19) =~= year_text(at.year as int));
}

/// A year is written in decimal digits, four of them up to 9999. A dash stands before a year below
/// zero, and a plus sign before one above 9999; there are four digits at least, and more only where
/// the year needs them.
pub proof fn law_year_is_written_in_digits(year: int)
    ensures
        ({
            let t = year_text(year);
            let far = year < 0 || year > 9999;
            let sign = if far {
                1int
            } else {
                0
            };
            let n = if year < 0 {
                -year
            } else {
                year
            };
            &&& t.len() >= sign + 4
            &&& year < 0 ==> t[0] == '-'
            &&& year > 9999 ==> t[0] == '+'
            &&& !far ==> t.len() == 4
            &&& t.len() > sign + 4 ==> n >= pow(10, (t.len() - sign - 1) as nat)
            &&& n < pow(10, (t.len() - sign) as nat)
            &&& forall|i: int|
                sign <= i < t.len() ==> (#[trigger] t[i]) as int == '0' as int + n / pow(
                    10,
                    (t.len() - 1 - i) as nat,
                ) % 10
        }),
{
    let n = if year < 0 {
        -year
    } else {
        year
    };
    let t = year_text(year);
    let digits = padded(n as nat, 4);
    law_padded_digits(n as nat, 4);
    if 0 <= year <= 9999 {
        lemma_field(n as nat, 4);
    } else {
        assert forall|i: int| 1 <= i < t.len() implies (#[trigger] t[i]) as int == '0' as int + n
            / pow(10, (t.len() - 1 - i) as nat) % 10 by {
            assert(t[i] == digits[i - 1]);
        }
    }
}

/// Dates and times that are written alike are the same down to the millisecond.
pub proof fn law_timestamps_tell_milliseconds_apart(a: LocalTime, b: LocalTime)
    requires
        a.is_valid(),
        b.is_valid(),
        a.text() == b.text(),
    ensures
        a.year == b.year,
        a.month == b.month,
        a.day == b.day,
        a.hour == b.hour,
        a.minute == b.minute,
        a.second == b.second,
        a.nanosecond as int / 1_000_000 == b.nanosecond as int / 1_000_000,
{
    law_fields_stand_in_their_places(a);
    law_fields_stand_in_their_places(b);
    assert(year_text(a.year as int) == year_text(b.year as int));
    lemma_years_differ(a.year as int, b.year as int);
    lemma_same_digits(a.month as int, b.month as int);
    lemma_same_digits(a.day as int, b.day as int);
    lemma_same_digits(a.hour as int, b.hour as int);
    lemma_same_digits(a.minute as int, b.minute as int);
    lemma_same_seconds(a.second as int, a.nanosecond as int, b.second as int, b.nanosecond as int);
}

proof fn lemma_same_digits(a: int, b: int)
    requires
        a / 10 == b / 10,
        a % 10 == b % 10,
    ensures
        a == b,
{
}

proof fn lemma_same_seconds(s: int, m: int, t: int, n: int)
    requires
        0 <= s < 60,
        0 <= t < 60,
        0 <= m < 1_000_000_000 || s == 59 && 0 <= m < 2_000_000_000,
        0 <= n < 1_000_000_000 || t == 59 && 0 <= n < 2_000_000_000,
        (s + m / 1_000_000_000) / 10 == (t + n / 1_000_000_000) / 10,
        (s + m / 1_000_000_000) % 10 == (t + n / 1_000_000_000) % 10,
        (m / 1_000_000 % 1000) / 100 == (n / 1_000_000 % 1000) / 100,
        (m / 1_000_000 % 1000) / 10 % 10 == (n / 1_000_000 % 1000) / 10 % 10,
        (m / 1_000_000 % 1000) % 10 == (n / 1_000_000 % 1000) % 10,
    ensures
        s == t,
        m / 1_000_000 == n / 1_000_000,
{
    lemma_same_digits(s + m / 1_000_000_000, t + n / 1_000_000_000);
    let x = m / 1_000_000 % 1000;
    let y = n / 1_000_000 % 1000;
    assert(x / 10 / 10 == x / 100);
    assert(y / 10 / 10 == y / 100);
    lemma_same_digits(x / 10, y / 10);
    lemma_same_digits(x, y);
}

proof fn lemma_years_differ(a: int, b: int)
    requires
        year_text(a) == year_text(b),
    ensures
        a == b,
{
    let s = (if a < 0 { -a } else { a }) as nat;
    let t = (if b < 0 { -b } else { b }) as nat;
    let one = padded(s, 4);
    let other = padded(t, 4);
    let text = year_text(a);
    law_padded(s, 4);
    law_padded(t, 4);
    assert('0' <= one[0] <= '9');
    assert('0' <= other[0] <= '9');
    assert(text[0] == if a < 0 { '-' } else if a > 9999 { '+' } else { one[0] });
    assert(text[0] == if b < 0 { '-' } else if b > 9999 { '+' } else { other[0] });
    if a < 0 || a > 9999 {
        assert(text.skip(1) =~= one);
        assert(text.skip(1) =~= other);
    } else {
        assert(text == one);
        assert(text == other);
    }
}

} // verus!
