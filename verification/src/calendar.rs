//! Times and lengths of time as the window shows them.
use crate::text;
use vstd::prelude::*;

verus! {

/// Whether a year has a twenty-ninth of February.
pub open spec fn is_leap(year: nat) -> bool {
    year % 4 == 0 && (year % 100 != 0 || year % 400 == 0)
}

/// The days of a year.
pub open spec fn year_days(year: nat) -> nat {
    if is_leap(year) {
        366
    } else {
        365
    }
}

/// The days of a month.
pub open spec fn month_days(year: nat, month: nat) -> nat {
    if month == 2 {
        if is_leap(year) {
            29
        } else {
            28
        }
    } else if month == 4 || month == 6 || month == 9 || month == 11 {
        30
    } else {
        31
    }
}

/// The days from the start of 1970 to the start of a year.
pub open spec fn days_to_year(year: nat) -> nat
    decreases year,
{
    if year <= 1970 {
        0
    } else {
        days_to_year((year - 1) as nat) + year_days((year - 1) as nat)
    }
}

/// The days from the start of a year to the start of a month.
pub open spec fn days_to_month(year: nat, month: nat) -> nat
    decreases month,
{
    if month <= 1 {
        0
    } else {
        days_to_month(year, (month - 1) as nat) + month_days(year, (month - 1) as nat)
    }
}

/// A day of the calendar.
pub struct Date {
    pub year: nat,
    pub month: nat,
    pub day: nat,
}

/// Whether a day is in the calendar, and not before 1970.
pub open spec fn is_date(date: Date) -> bool {
    &&& date.year >= 1970
    &&& 1 <= date.month <= 12
    &&& 1 <= date.day <= month_days(date.year, date.month)
}

/// The days from the first of January 1970 to a day.
pub open spec fn day_number(date: Date) -> nat {
    (days_to_year(date.year) + days_to_month(date.year, date.month) + date.day - 1) as nat
}

/// The day that stands a number of days behind the first of January 1970.
pub open spec fn date_of(days: nat) -> Date {
    choose|date: Date| is_date(date) && #[trigger] day_number(date) == days
}

proof fn lemma_years_in_order(a: nat, b: nat)
    requires
        1970 <= a < b,
    ensures
        days_to_year(a) + year_days(a) <= days_to_year(b),
    decreases b,
{
    if b > a + 1 {
        lemma_years_in_order(a, (b - 1) as nat);
    }
}

proof fn lemma_months_in_order(year: nat, a: nat, b: nat)
    requires
        1 <= a < b,
    ensures
        days_to_month(year, a) + month_days(year, a) <= days_to_month(year, b),
    decreases b,
{
    if b > a + 1 {
        lemma_months_in_order(year, a, (b - 1) as nat);
    }
}

proof fn lemma_months_fill_year(year: nat)
    ensures
        days_to_month(year, 13) == year_days(year),
{
    reveal_with_fuel(days_to_month, 14);
}

proof fn lemma_date_in_year(date: Date)
    requires
        is_date(date),
    ensures
        days_to_year(date.year) <= day_number(date) < days_to_year(date.year) + year_days(
            date.year,
        ),
{
    lemma_months_in_order(date.year, date.month, 13);
    lemma_months_fill_year(date.year);
}

/// Each day of the calendar has a number of its own.
pub proof fn law_one_date_a_day(a: Date, b: Date)
    requires
        is_date(a),
        is_date(b),
        day_number(a) == day_number(b),
    ensures
        a == b,
{
    lemma_date_in_year(a);
    lemma_date_in_year(b);
    if a.year < b.year {
        lemma_years_in_order(a.year, b.year);
    } else if b.year < a.year {
        lemma_years_in_order(b.year, a.year);
    } else if a.month < b.month {
        lemma_months_in_order(a.year, a.month, b.month);
    } else if b.month < a.month {
        lemma_months_in_order(a.year, b.month, a.month);
    }
}

fn leap(year: u64) -> (r: bool)
    ensures
        r == is_leap(year as nat),
{
    year % 4 == 0 && (year % 100 != 0 || year % 400 == 0)
}

fn days_in_year(year: u64) -> (days: u64)
    ensures
        days == year_days(year as nat),
{
    if leap(year) {
        366
    } else {
        365
    }
}

fn days_in_month(year: u64, month: u64) -> (days: u64)
    ensures
        days == month_days(year as nat, month as nat),
{
    if month == 2 {
        if leap(year) {
            29
        } else {
            28
        }
    } else if month == 4 || month == 6 || month == 9 || month == 11 {
        30
    } else {
        31
    }
}

/// The year, the month and the day that stand a number of days behind the first of January 1970.
pub fn civil_date(days: u64) -> (date: (u64, u64, u64))
    requires
        days <= 4_000_000_000,
    ensures
        ({
            let day = Date { year: date.0 as nat, month: date.1 as nat, day: date.2 as nat };
            is_date(day) && day_number(day) == days && day == date_of(days as nat)
        }),
{
    let mut year: u64 = 1970;
    let mut left: u64 = days;
    while left >= days_in_year(year)
        invariant
            1970 <= year,
            left <= days <= 4_000_000_000,
            year - 1970 <= days - left,
            days_to_year(year as nat) + left == days,
        decreases left,
    {
        left = left - days_in_year(year);
        year = year + 1;
    }
    let mut month: u64 = 1;
    proof {
        lemma_months_fill_year(year as nat);
    }
    let ghost in_year = left;
    while left >= days_in_month(year, month)
        invariant
            1 <= month <= 12,
            days_to_month(year as nat, month as nat) + left == in_year,
            in_year < year_days(year as nat),
            days_to_month(year as nat, 13) == year_days(year as nat),
        decreases left,
    {
        left = left - days_in_month(year, month);
        month = month + 1;
    }
    proof {
        let day = Date { year: year as nat, month: month as nat, day: (left + 1) as nat };
        assert(is_date(day) && day_number(day) == days);
        law_one_date_a_day(day, date_of(days as nat));
    }
    (year, month, left + 1)
}

/// A number below one hundred in two digits.
pub open spec fn two_digits(n: nat) -> Seq<char> {
    if n < 10 {
        "0"@ + text::decimal(n)
    } else {
        text::decimal(n)
    }
}

fn put_two_digits(out: &mut String, n: u64)
    ensures
        final(out)@ == old(out)@ + two_digits(n as nat),
{
    if n < 10 {
        out.append("0");
        text::put_number(out, n);
        assert(out@ =~= old(out)@ + ("0"@ + text::decimal(n as nat)));
    } else {
        text::put_number(out, n);
    }
}

/// Hours, minutes and seconds.
pub open spec fn clock_text(seconds: nat) -> Seq<char> {
    two_digits(seconds / 3600 % 24) + ":"@ + two_digits(seconds / 60 % 60) + ":"@ + two_digits(
        seconds % 60,
    )
}

fn put_clock(out: &mut String, seconds: u64)
    ensures
        final(out)@ == old(out)@ + clock_text(seconds as nat),
{
    put_two_digits(out, seconds / 3600 % 24);
    out.append(":");
    put_two_digits(out, seconds / 60 % 60);
    out.append(":");
    put_two_digits(out, seconds % 60);
    assert(out@ =~= old(out)@ + clock_text(seconds as nat));
}

/// How far the shown clock is ahead of Unix time, in seconds: eight hours.
pub const OFFSET_SECONDS: u64 = 28_800;

/// A day and a time of day.
pub open spec fn stamp_text(date: Date, seconds: nat) -> Seq<char> {
    text::decimal(date.year) + "-"@ + two_digits(date.month) + "-"@ + two_digits(date.day) + " "@
        + clock_text(seconds)
}

/// A time as the window shows it: its day and its time of day in Beijing.
pub open spec fn timestamp_text(unix_nanos: u64) -> Seq<char> {
    let seconds = unix_nanos as nat / 1_000_000_000 + OFFSET_SECONDS as nat;
    stamp_text(date_of(seconds / 86_400), seconds)
}

/// A time as the window shows it.
pub fn format_timestamp(unix_nanos: u64) -> (text: String)
    ensures
        text@ == timestamp_text(unix_nanos),
{
    let seconds: u64 = unix_nanos / 1_000_000_000 + OFFSET_SECONDS;
    let (year, month, day): (u64, u64, u64) = civil_date(seconds / 86_400);
    let mut text = text::decimal_text(year);
    text.append("-");
    put_two_digits(&mut text, month);
    text.append("-");
    put_two_digits(&mut text, day);
    text.append(" ");
    put_clock(&mut text, seconds);
    text
}

/// A length of time as the window shows it: whole days where there are any, then the rest.
pub open spec fn duration_text(start: u64, end: u64) -> Seq<char> {
    let seconds: nat = if end >= start {
        (end - start) as nat / 1_000_000_000
    } else {
        0
    };
    if seconds / 86_400 > 0 {
        text::decimal(seconds / 86_400) + "天 "@ + clock_text(seconds)
    } else {
        clock_text(seconds)
    }
}

/// A length of time as the window shows it; one that ends before it starts is empty.
pub fn format_duration(start_unix_nanos: u64, end_unix_nanos: u64) -> (text: String)
    ensures
        text@ == duration_text(start_unix_nanos, end_unix_nanos),
{
    let seconds: u64 = end_unix_nanos.saturating_sub(start_unix_nanos) / 1_000_000_000;
    let days: u64 = seconds / 86_400;
    let mut text = String::new();
    if days > 0 {
        text::put_number(&mut text, days);
        text.append("天 ");
        put_clock(&mut text, seconds);
        assert(text@ =~= text::decimal(days as nat) + "天 "@ + clock_text(seconds as nat));
    } else {
        put_clock(&mut text, seconds);
        assert(text@ =~= clock_text(seconds as nat));
    }
    text
}

/// The days of the calendar follow each other: the first of January 1970 is day zero, the day behind
/// a day of the same month is the next day, and so are the first of a month behind the last of the
/// month before, and the first of January behind the last of December.
pub proof fn law_days_follow_each_other(year: nat, month: nat, day: nat)
    requires
        year >= 1970,
        1 <= month <= 12,
        1 <= day <= month_days(year, month),
    ensures
        day_number(Date { year: 1970, month: 1, day: 1 }) == 0,
        ({
            let today = day_number(Date { year, month, day });
            if day < month_days(year, month) {
                day_number(Date { year, month, day: day + 1 }) == today + 1
            } else if month < 12 {
                day_number(Date { year, month: month + 1, day: 1 }) == today + 1
            } else {
                day_number(Date { year: year + 1, month: 1, day: 1 }) == today + 1
            }
        }),
{
    reveal_with_fuel(days_to_month, 13);
    reveal_with_fuel(days_to_year, 2);
}

/// February has 29 days in a year that four divides, but for one that a hundred divides and four
/// hundred does not; April, June, September and November have 30 days, the other months 31.
pub proof fn law_lengths_of_months(year: nat)
    ensures
        month_days(year, 2) == 29 <==> (year % 400 == 0 || (year % 4 == 0 && year % 100 != 0)),
        month_days(year, 2) == 28 || month_days(year, 2) == 29,
        month_days(year, 1) == 31,
        month_days(year, 3) == 31,
        month_days(year, 4) == 30,
        month_days(year, 5) == 31,
        month_days(year, 6) == 30,
        month_days(year, 7) == 31,
        month_days(year, 8) == 31,
        month_days(year, 9) == 30,
        month_days(year, 10) == 31,
        month_days(year, 11) == 30,
        month_days(year, 12) == 31,
        year % 400 == 0 ==> year % 4 == 0,
{
}

/// A number below a hundred is written with two digits.
pub proof fn law_two_digits(n: nat)
    requires
        n < 100,
    ensures
        two_digits(n) == seq![text::digit(n / 10), text::digit(n % 10)],
{
    reveal_strlit("0");
    reveal_with_fuel(text::decimal, 2);
    assert(two_digits(n) =~= seq![text::digit(n / 10), text::digit(n % 10)]);
}

/// A time is shown as the date and the clock eight hours ahead of the universal time.
pub proof fn law_times_are_shown_eight_hours_ahead(
    unix_nanos: u64,
    date: Date,
    hour: nat,
    minute: nat,
    second: nat,
)
    requires
        is_date(date),
        hour < 24,
        minute < 60,
        second < 60,
        unix_nanos as int / 1_000_000_000 + 8 * 3600 == day_number(date) * 86_400 + hour * 3600
            + minute * 60 + second,
    ensures
        timestamp_text(unix_nanos) == text::decimal(date.year) + "-"@ + two_digits(date.month)
            + "-"@ + two_digits(date.day) + " "@ + (two_digits(hour) + ":"@ + two_digits(minute)
            + ":"@ + two_digits(second)),
{
    let seconds = unix_nanos as nat / 1_000_000_000 + OFFSET_SECONDS as nat;
    lemma_parts_of_a_time(seconds, day_number(date), hour, minute, second);
    let found = date_of(seconds / 86_400);
    assert(is_date(found) && day_number(found) == day_number(date));
    law_one_date_a_day(found, date);
}

/// The days, hours, minutes and seconds that a number of seconds is made of.
proof fn lemma_parts_of_a_time(seconds: nat, days: nat, hour: nat, minute: nat, second: nat)
    requires
        hour < 24,
        minute < 60,
        second < 60,
        seconds == days * 86_400 + hour * 3600 + minute * 60 + second,
    ensures
        seconds / 86_400 == days,
        seconds / 3600 % 24 == hour,
        seconds / 60 % 60 == minute,
        seconds % 60 == second,
{
    assert(seconds / 60 == days * 1440 + hour * 60 + minute);
    assert(seconds / 3600 == days * 24 + hour);
}

/// A duration is shown as its days, where there are any, and its hours, minutes and seconds; one
/// that ends before it starts is none.
pub proof fn law_durations_are_shown_in_parts(
    start: u64,
    end: u64,
    days: nat,
    hour: nat,
    minute: nat,
    second: nat,
)
    requires
        hour < 24,
        minute < 60,
        second < 60,
        start <= end,
        (end - start) / 1_000_000_000 == days * 86_400 + hour * 3600 + minute * 60 + second,
    ensures
        ({
            let clock = two_digits(hour) + ":"@ + two_digits(minute) + ":"@ + two_digits(second);
            &&& days == 0 ==> duration_text(start, end) == clock
            &&& days > 0 ==> duration_text(start, end) == text::decimal(days) + "天 "@ + clock
            &&& start < end ==> duration_text(end, start) == two_digits(0) + ":"@ + two_digits(0)
                + ":"@ + two_digits(0)
        }),
{
    let seconds = (end - start) as nat / 1_000_000_000;
    lemma_parts_of_a_time(seconds, days, hour, minute, second);
}

} // verus!
