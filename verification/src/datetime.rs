//! Calendar dates and timestamps as the row writer takes them.
//!
//! Columnar sources count days, seconds or fractions of seconds from
//! 1970-01-01. Which date and time of day such a count falls on is asked
//! of the Arrow array library; PostgreSQL's own counts, from 2000-01-01,
//! and the printed forms are made here from what it answers.

use crate::text::{decimal_digits, fixed_digits, push_decimal_digits, push_fixed_digits};
use arrow_array::temporal_conversions::{
    date32_to_datetime, date64_to_datetime, timestamp_ms_to_datetime, timestamp_ns_to_datetime,
    timestamp_s_to_datetime, timestamp_us_to_datetime,
};
use chrono::{Datelike, Timelike};
use vstd::prelude::*;

verus! {

/// The unit in which a column counts time.
#[derive(Clone, Copy, Debug, PartialEq, Eq, Structural)]
pub enum TimeUnit {
    Second,
    Millisecond,
    Microsecond,
    Nanosecond,
}

/// A date and a time of day as plain numbers, as the calendar gives them.
#[derive(Clone, Copy, Debug, PartialEq, Eq, Structural)]
pub struct CivilTime {
    pub year: i32,
    pub month: u32,
    pub day: u32,
    /// The number of the day, counted from 0001-01-01 as day 1.
    pub days_from_ce: i32,
    /// Whole seconds since midnight.
    pub seconds: u32,
    /// Nanoseconds since the whole second; a thousand million or more
    /// inside a leap second.
    pub nanos: u32,
}

impl CivilTime {
    /// The fields are in the ranges that the calendar gives them in.
    pub open spec fn in_range(self) -> bool {
        &&& 1 <= self.month <= 12
        &&& 1 <= self.day <= 31
        &&& self.seconds < 86_400
        &&& self.nanos < 2_000_000_000
    }
}

/// The midnight that begins the day `days` after 1970-01-01, or `None`
/// where that day lies outside the calendar's range.
pub uninterp spec fn date32_civil(days: i32) -> Option<CivilTime>;

/// The date and time `millis` milliseconds after 1970-01-01 00:00:00, or
/// `None` where that lies outside the calendar's range.
pub uninterp spec fn date64_civil(millis: i64) -> Option<CivilTime>;

/// The date and time `seconds` seconds after 1970-01-01 00:00:00, or
/// `None` where that lies outside the calendar's range.
pub uninterp spec fn timestamp_s_civil(seconds: i64) -> Option<CivilTime>;

/// The date and time `millis` milliseconds after 1970-01-01 00:00:00, or
/// `None` where that lies outside the calendar's range.
pub uninterp spec fn timestamp_ms_civil(millis: i64) -> Option<CivilTime>;

/// The date and time `micros` microseconds after 1970-01-01 00:00:00, or
/// `None` where that lies outside the calendar's range.
pub uninterp spec fn timestamp_us_civil(micros: i64) -> Option<CivilTime>;

/// The date and time `nanos` nanoseconds after 1970-01-01 00:00:00, or
/// `None` where that lies outside the calendar's range.
pub uninterp spec fn timestamp_ns_civil(nanos: i64) -> Option<CivilTime>;

/// Asks the calendar for the date of a day count.
///
/// Rests on `arrow_array::temporal_conversions::date32_to_datetime`. The
/// fields of what it returns are read off with the getters of
/// `chrono::Datelike` and `chrono::Timelike`, which number months from 1
/// to 12, days of a month from 1 to 31, seconds of a day from 0 to 86399,
/// and nanoseconds below two thousand million.
#[verifier::external_body]
fn date32_to_civil(days: i32) -> (r: Option<CivilTime>)
    ensures
        r == date32_civil(days),
        r matches Some(c) ==> c.in_range(),
{
    match date32_to_datetime(days) {
        Some(t) => Some(CivilTime {
            year: t.year(),
            month: t.month(),
            day: t.day(),
            days_from_ce: t.num_days_from_ce(),
            seconds: t.num_seconds_from_midnight(),
            nanos: t.nanosecond(),
        }),
        None => None,
    }
}

/// Asks the calendar for the date and time of a count of milliseconds.
///
/// Rests on `arrow_array::temporal_conversions::date64_to_datetime`; the
/// fields are read off as in [`date32_to_civil`].
#[verifier::external_body]
fn date64_to_civil(millis: i64) -> (r: Option<CivilTime>)
    ensures
        r == date64_civil(millis),
        r matches Some(c) ==> c.in_range(),
{
    match date64_to_datetime(millis) {
        Some(t) => Some(CivilTime {
            year: t.year(),
            month: t.month(),
            day: t.day(),
            days_from_ce: t.num_days_from_ce(),
            seconds: t.num_seconds_from_midnight(),
            nanos: t.nanosecond(),
        }),
        None => None,
    }
}

/// Asks the calendar for the date and time of a count of seconds.
///
/// Rests on `arrow_array::temporal_conversions::timestamp_s_to_datetime`;
/// the fields are read off as in [`date32_to_civil`].
#[verifier::external_body]
fn timestamp_s_to_civil(seconds: i64) -> (r: Option<CivilTime>)
    ensures
        r == timestamp_s_civil(seconds),
        r matches Some(c) ==> c.in_range(),
{
    match timestamp_s_to_datetime(seconds) {
        Some(t) => Some(CivilTime {
            year: t.year(),
            month: t.month(),
            day: t.day(),
            days_from_ce: t.num_days_from_ce(),
            seconds: t.num_seconds_from_midnight(),
            nanos: t.nanosecond(),
        }),
        None => None,
    }
}

/// Asks the calendar for the date and time of a count of milliseconds.
///
/// Rests on `arrow_array::temporal_conversions::timestamp_ms_to_datetime`;
/// the fields are read off as in [`date32_to_civil`].
#[verifier::external_body]
fn timestamp_ms_to_civil(millis: i64) -> (r: Option<CivilTime>)
    ensures
        r == timestamp_ms_civil(millis),
        r matches Some(c) ==> c.in_range(),
{
    match timestamp_ms_to_datetime(millis) {
        Some(t) => Some(CivilTime {
            year: t.year(),
            month: t.month(),
            day: t.day(),
            days_from_ce: t.num_days_from_ce(),
            seconds: t.num_seconds_from_midnight(),
            nanos: t.nanosecond(),
        }),
        None => None,
    }
}

/// Asks the calendar for the date and time of a count of microseconds.
///
/// Rests on `arrow_array::temporal_conversions::timestamp_us_to_datetime`;
/// the fields are read off as in [`date32_to_civil`].
#[verifier::external_body]
fn timestamp_us_to_civil(micros: i64) -> (r: Option<CivilTime>)
    ensures
        r == timestamp_us_civil(micros),
        r matches Some(c) ==> c.in_range(),
{
    match timestamp_us_to_datetime(micros) {
        Some(t) => Some(CivilTime {
            year: t.year(),
            month: t.month(),
            day: t.day(),
            days_from_ce: t.num_days_from_ce(),
            seconds: t.num_seconds_from_midnight(),
            nanos: t.nanosecond(),
        }),
        None => None,
    }
}

/// Asks the calendar for the date and time of a count of nanoseconds.
///
/// Rests on `arrow_array::temporal_conversions::timestamp_ns_to_datetime`;
/// the fields are read off as in [`date32_to_civil`].
#[verifier::external_body]
fn timestamp_ns_to_civil(nanos: i64) -> (r: Option<CivilTime>)
    ensures
        r == timestamp_ns_civil(nanos),
        r matches Some(c) ==> c.in_range(),
{
    match timestamp_ns_to_datetime(nanos) {
        Some(t) => Some(CivilTime {
            year: t.year(),
            month: t.month(),
            day: t.day(),
            days_from_ce: t.num_days_from_ce(),
            seconds: t.num_seconds_from_midnight(),
            nanos: t.nanosecond(),
        }),
        None => None,
    }
}

/// The number of 2000-01-01, counted from 0001-01-01 as day 1.
pub open spec fn day_of_2000() -> int {
    730_120
}

/// The number of microseconds in a day.
pub open spec fn micros_per_day() -> int {
    86_400_000_000
}

/// A calendar date.
#[derive(Clone, Copy, Debug, PartialEq, Eq, Structural)]
pub struct Date {
    /// Days since 2000-01-01.
    pub pg_days: i32,
    pub year: i32,
    pub month: u32,
    pub day: u32,
}

impl Date {
    /// The month and the day of the month are in their ranges.
    pub open spec fn wf(self) -> bool {
        &&& 1 <= self.month <= 12
        &&& 1 <= self.day <= 31
    }

    /// The date of what the calendar gave, with its day counted from
    /// 2000-01-01, where that count fits 32 bits.
    pub open spec fn of_civil(c: CivilTime) -> Option<Date> {
        if c.days_from_ce - day_of_2000() >= i32::MIN {
            Some(
                Date {
                    pg_days: (c.days_from_ce - day_of_2000()) as i32,
                    year: c.year,
                    month: c.month,
                    day: c.day,
                },
            )
        } else {
            None
        }
    }

    /// The date of day `days` after 1970-01-01, where the calendar has
    /// that day.
    pub open spec fn spec_from_epoch_days(days: i32) -> Option<Date> {
        match date32_civil(days) {
            Some(c) => Self::of_civil(c),
            None => None,
        }
    }

    /// The date on which the instant `millis` milliseconds after
    /// 1970-01-01 00:00 falls, where the calendar has that day.
    pub open spec fn spec_from_epoch_millis(millis: i64) -> Option<Date> {
        match date64_civil(millis) {
            Some(c) => Self::of_civil(c),
            None => None,
        }
    }

    /// The date of what the calendar gave.
    fn from_civil(c: CivilTime) -> (r: Option<Date>)
        ensures
            r == Self::of_civil(c),
    {
        if c.days_from_ce >= i32::MIN + 730_120 {
            Some(
                Date {
                    pg_days: c.days_from_ce - 730_120,
                    year: c.year,
                    month: c.month,
                    day: c.day,
                },
            )
        } else {
            None
        }
    }

    /// The date of day `days` after 1970-01-01.
    pub fn from_epoch_days(days: i32) -> (r: Option<Date>)
        ensures
            r == Self::spec_from_epoch_days(days),
            r matches Some(d) ==> d.wf(),
    {
        match date32_to_civil(days) {
            Some(c) => Date::from_civil(c),
            None => None,
        }
    }

    /// The date on which the instant `millis` milliseconds after
    /// 1970-01-01 00:00 falls.
    pub fn from_epoch_millis(millis: i64) -> (r: Option<Date>)
        ensures
            r == Self::spec_from_epoch_millis(millis),
            r matches Some(d) ==> d.wf(),
    {
        match date64_to_civil(millis) {
            Some(c) => Date::from_civil(c),
            None => None,
        }
    }

    /// The lexical form: `YYYY-MM-DD`.
    pub open spec fn text(self) -> Seq<u8> {
        year_text(self.year as int) + seq![0x2du8] + fixed_digits(self.month as nat, 2) + seq![
            0x2du8,
        ] + fixed_digits(self.day as nat, 2)
    }

    /// Appends the lexical form to `out`.
    pub fn push_text(&self, out: &mut Vec<u8>)
        ensures
            final(out)@ == old(out)@ + self.text(),
    {
        push_year_text(out, self.year);
        out.push(0x2du8);
        push_fixed_digits(out, self.month as u64, 2);
        out.push(0x2du8);
        push_fixed_digits(out, self.day as u64, 2);
    }
}

/// A year as it is printed: four digits from 0 to 9999, else a sign and at
/// least four digits.
pub open spec fn year_text(year: int) -> Seq<u8> {
    if 0 <= year <= 9999 {
        fixed_digits(year as nat, 4)
    } else if year < 0 {
        seq![0x2du8] + at_least_four_digits((-year) as nat)
    } else {
        seq![0x2bu8] + at_least_four_digits(year as nat)
    }
}

/// The digits of `n`, with leading zeros up to four.
pub open spec fn at_least_four_digits(n: nat) -> Seq<u8> {
    if n <= 9999 {
        fixed_digits(n, 4)
    } else {
        decimal_digits(n)
    }
}

fn push_year_text(out: &mut Vec<u8>, year: i32)
    ensures
        final(out)@ == old(out)@ + year_text(year as int),
{
    if 0 <= year && year <= 9999 {
        push_fixed_digits(out, year as u64, 4);
    } else {
        let n: u64 = if year < 0 {
            out.push(0x2du8);
            (-(year as i64)) as u64
        } else {
            out.push(0x2bu8);
            year as u64
        };
        if n <= 9999 {
            push_fixed_digits(out, n, 4);
        } else {
            push_decimal_digits(out, n);
        }
    }
}

/// A date and a time of day, to the microsecond.
#[derive(Clone, Copy, Debug, PartialEq, Eq, Structural)]
pub struct Timestamp {
    /// Microseconds since 2000-01-01 00:00:00.
    pub pg_micros: i64,
    pub date: Date,
    /// Microseconds since midnight.
    pub micros_of_day: u64,
}

impl Timestamp {
    /// The fields name one instant.
    pub open spec fn wf(self) -> bool {
        &&& self.date.wf()
        &&& self.micros_of_day < micros_per_day()
        &&& self.pg_micros == self.date.pg_days * micros_per_day() + self.micros_of_day
    }

    /// What the calendar answers for a count of `unit`s since 1970-01-01
    /// 00:00:00.
    pub open spec fn civil(value: i64, unit: TimeUnit) -> Option<CivilTime> {
        match unit {
            TimeUnit::Second => timestamp_s_civil(value),
            TimeUnit::Millisecond => timestamp_ms_civil(value),
            TimeUnit::Microsecond => timestamp_us_civil(value),
            TimeUnit::Nanosecond => timestamp_ns_civil(value),
        }
    }

    /// The timestamp of what the calendar gave, cut to whole microseconds
    /// and counted from 2000-01-01, where that count fits 64 bits. Nothing
    /// inside a leap second is a timestamp.
    pub open spec fn of_civil(c: CivilTime) -> Option<Timestamp> {
        match Date::of_civil(c) {
            Some(date) => {
                let micros_of_day = c.seconds * 1_000_000 + c.nanos / 1_000;
                let pg_micros = date.pg_days * micros_per_day() + micros_of_day;
                if c.nanos < 1_000_000_000 && i64::MIN <= pg_micros <= i64::MAX {
                    Some(
                        Timestamp {
                            pg_micros: pg_micros as i64,
                            date,
                            micros_of_day: micros_of_day as u64,
                        },
                    )
                } else {
                    None
                }
            },
            None => None,
        }
    }

    /// The instant `value` units after 1970-01-01 00:00:00, where the
    /// calendar has it.
    pub open spec fn spec_from_epoch(value: i64, unit: TimeUnit) -> Option<Timestamp> {
        match Self::civil(value, unit) {
            Some(c) => Self::of_civil(c),
            None => None,
        }
    }

    /// The instant `value` units after 1970-01-01 00:00:00.
    pub fn from_epoch(value: i64, unit: TimeUnit) -> (r: Option<Timestamp>)
        ensures
            r == Self::spec_from_epoch(value, unit),
            r matches Some(t) ==> t.wf(),
    {
        let civil = match unit {
            TimeUnit::Second => timestamp_s_to_civil(value),
            TimeUnit::Millisecond => timestamp_ms_to_civil(value),
            TimeUnit::Microsecond => timestamp_us_to_civil(value),
            TimeUnit::Nanosecond => timestamp_ns_to_civil(value),
        };
        let c = match civil {
            Some(c) => c,
            None => {
                return None;
            },
        };
        match Date::from_civil(c) {
            None => None,
            Some(date) => {
                if c.nanos >= 1_000_000_000 {
                    return None;
                }
                let micros_of_day: u64 = (c.seconds as u64) * 1_000_000 + (c.nanos as u64) / 1_000;
                let wide: i128 = (date.pg_days as i128) * 86_400_000_000 + (micros_of_day as i128);
                if wide < -0x8000_0000_0000_0000 || wide > 0x7fff_ffff_ffff_ffff {
                    None
                } else {
                    Some(Timestamp { pg_micros: wide as i64, date, micros_of_day })
                }
            },
        }
    }

    /// The time of day as it is printed: `HH:MM:SS`, then a point and six
    /// digits where the second has a fraction.
    pub open spec fn time_text(self) -> Seq<u8> {
        let seconds = self.micros_of_day as nat / 1_000_000;
        let fraction = self.micros_of_day as nat % 1_000_000;
        let whole = fixed_digits(seconds / 3600, 2) + seq![0x3au8] + fixed_digits(
            seconds / 60 % 60,
            2,
        ) + seq![0x3au8] + fixed_digits(seconds % 60, 2);
        if fraction == 0 {
            whole
        } else {
            whole + seq![0x2eu8] + fixed_digits(fraction, 6)
        }
    }

    /// The lexical form: `YYYY-MM-DD HH:MM:SS[.ffffff]`.
    pub open spec fn text(self) -> Seq<u8> {
        self.date.text() + seq![0x20u8] + self.time_text()
    }

    /// Appends the lexical form to `out`.
    pub fn push_text(&self, out: &mut Vec<u8>)
        ensures
            final(out)@ == old(out)@ + self.text(),
    {
        let seconds: u64 = self.micros_of_day / 1_000_000;
        let fraction: u64 = self.micros_of_day % 1_000_000;
        self.date.push_text(out);
        out.push(0x20u8);
        push_fixed_digits(out, seconds / 3600, 2);
        out.push(0x3au8);
        push_fixed_digits(out, seconds / 60 % 60, 2);
        out.push(0x3au8);
        push_fixed_digits(out, seconds % 60, 2);
        if fraction != 0 {
            out.push(0x2eu8);
            push_fixed_digits(out, fraction, 6);
        }
    }
}

} // verus!
