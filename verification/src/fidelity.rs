//! Type fidelity: the lexical form of a value denotes the value.

use crate::datetime::{year_text, Date, Timestamp};
use crate::protocol::FormatCode;
use crate::protocol_ext::{
    bool_cell, date_cell, int2_cell, int4_cell, int8_cell, string_cell, timestamp_cell,
};
use crate::text::{
    all_digits, digits_value, fixed_digits, lemma_decimal_round_trip, lemma_fixed_digits,
    parse_decimal, ten_to,
};
use vstd::prelude::*;
use vstd::utf8::{decode_utf8, encode_utf8_decode_utf8};

verus! {

/// The boolean that a text denotes: `t` or `f`.
pub open spec fn parse_bool(s: Seq<u8>) -> Option<bool> {
    if s == seq![0x74u8] {
        Some(true)
    } else if s == seq![0x66u8] {
        Some(false)
    } else {
        None
    }
}

/// The number that the digits of `s` from `from` up to `to` denote, where
/// they are digits.
pub open spec fn field_value(s: Seq<u8>, from: int, to: int) -> Option<nat> {
    if 0 <= from <= to <= s.len() && all_digits(s.subrange(from, to)) {
        Some(digits_value(s.subrange(from, to)))
    } else {
        None
    }
}

/// The year, month and day that a text of the form `YYYY-MM-DD` denotes.
pub open spec fn parse_date(s: Seq<u8>) -> Option<(nat, nat, nat)> {
    if s.len() == 10 && s[4] == 0x2d && s[7] == 0x2d {
        match (field_value(s, 0, 4), field_value(s, 5, 7), field_value(s, 8, 10)) {
            (Some(year), Some(month), Some(day)) => Some((year, month, day)),
            _ => None,
        }
    } else {
        None
    }
}

/// The microseconds since midnight that a text of the form
/// `HH:MM:SS[.ffffff]` denotes.
pub open spec fn parse_time(s: Seq<u8>) -> Option<nat> {
    if s.len() >= 8 && s[2] == 0x3a && s[5] == 0x3a {
        match (field_value(s, 0, 2), field_value(s, 3, 5), field_value(s, 6, 8)) {
            (Some(hour), Some(minute), Some(second)) => {
                let whole = ((hour * 60 + minute) * 60 + second) * 1_000_000;
                if s.len() == 8 {
                    Some(whole)
                } else if s.len() == 15 && s[8] == 0x2e {
                    match field_value(s, 9, 15) {
                        Some(fraction) => Some(whole + fraction),
                        None => None,
                    }
                } else {
                    None
                }
            },
            _ => None,
        }
    } else {
        None
    }
}

/// The date and the microseconds since midnight that a text of the form
/// `YYYY-MM-DD HH:MM:SS[.ffffff]` denotes.
pub open spec fn parse_timestamp(s: Seq<u8>) -> Option<((nat, nat, nat), nat)> {
    if s.len() >= 11 && s[10] == 0x20 {
        match (parse_date(s.subrange(0, 10)), parse_time(s.subrange(11, s.len() as int))) {
            (Some(date), Some(time)) => Some((date, time)),
            _ => None,
        }
    } else {
        None
    }
}

/// The text of a boolean denotes the boolean.
pub proof fn lemma_bool_text(v: bool)
    ensures
        parse_bool(bool_cell(FormatCode::Text, v)) == Some(v),
{
    assert(seq![0x74u8][0] != seq![0x66u8][0]);
}

/// The text of an integer of any width denotes the integer.
pub proof fn lemma_int_text(a: i16, b: i32, c: i64)
    ensures
        parse_decimal(int2_cell(FormatCode::Text, a)) == Some(a as int),
        parse_decimal(int4_cell(FormatCode::Text, b)) == Some(b as int),
        parse_decimal(int8_cell(FormatCode::Text, c)) == Some(c as int),
{
    lemma_decimal_round_trip(a as int);
    lemma_decimal_round_trip(b as int);
    lemma_decimal_round_trip(c as int);
}

/// The bytes of a string denote the string.
pub proof fn lemma_string_text(s: Seq<char>)
    ensures
        decode_utf8(string_cell(s)) == s,
{
    encode_utf8_decode_utf8(s);
}

/// A field of fixed width that stands in a text is read back as its
/// number.
proof fn lemma_field(s: Seq<u8>, from: int, n: nat, width: nat)
    requires
        n < ten_to(width),
        0 <= from,
        from + width <= s.len(),
        s.subrange(from, from + width) == fixed_digits(n, width),
    ensures
        field_value(s, from, from + width) == Some(n),
{
    lemma_fixed_digits(n, width);
}

/// The text of a date in the years 0 to 9999 denotes its year, month and
/// day.
pub proof fn lemma_date_text(d: Date)
    requires
        d.wf(),
        0 <= d.year <= 9999,
    ensures
        parse_date(date_cell(FormatCode::Text, d)) == Some(
            (d.year as nat, d.month as nat, d.day as nat),
        ),
{
    let s = d.text();
    let y = fixed_digits(d.year as nat, 4);
    let m = fixed_digits(d.month as nat, 2);
    let dd = fixed_digits(d.day as nat, 2);
    lemma_fixed_digits(d.year as nat, 4);
    lemma_fixed_digits(d.month as nat, 2);
    lemma_fixed_digits(d.day as nat, 2);
    assert(ten_to(4) == 10000 && ten_to(2) == 100) by {
        reveal_with_fuel(ten_to, 5);
    }
    assert(year_text(d.year as int) == y);
    assert(s =~= y + seq![0x2du8] + m + seq![0x2du8] + dd);
    assert(s.len() == 10);
    assert(s[4] == 0x2d && s[7] == 0x2d);
    assert(s.subrange(0, 4) =~= y);
    assert(s.subrange(5, 7) =~= m);
    assert(s.subrange(8, 10) =~= dd);
    lemma_field(s, 0, d.year as nat, 4);
    lemma_field(s, 5, d.month as nat, 2);
    lemma_field(s, 8, d.day as nat, 2);
}

/// The text of a time of day denotes its microseconds since midnight.
proof fn lemma_time_text(t: Timestamp)
    requires
        t.wf(),
    ensures
        parse_time(t.time_text()) == Some(t.micros_of_day as nat),
        t.time_text().len() >= 8,
{
    let s = t.time_text();
    let seconds = t.micros_of_day as nat / 1_000_000;
    let fraction = t.micros_of_day as nat % 1_000_000;
    let h = seconds / 3600;
    let mi = seconds / 60 % 60;
    let se = seconds % 60;
    let hh = fixed_digits(h, 2);
    let mm = fixed_digits(mi, 2);
    let ss = fixed_digits(se, 2);
    let ff = fixed_digits(fraction, 6);
    lemma_fixed_digits(h, 2);
    lemma_fixed_digits(mi, 2);
    lemma_fixed_digits(se, 2);
    lemma_fixed_digits(fraction, 6);
    assert(ten_to(2) == 100 && ten_to(6) == 1_000_000) by {
        reveal_with_fuel(ten_to, 7);
    }
    assert(seconds < 86_400);
    assert(h < 24);
    let whole = hh + seq![0x3au8] + mm + seq![0x3au8] + ss;
    assert(whole.len() == 8);
    assert((h * 60 + mi) * 60 + se == seconds) by {
        assert(seconds == (seconds / 60) * 60 + seconds % 60);
        assert(seconds / 60 == (seconds / 60 / 60) * 60 + seconds / 60 % 60);
        assert(seconds / 60 / 60 == seconds / 3600);
    }
    if fraction == 0 {
        assert(s == whole);
    } else {
        assert(s =~= whole + seq![0x2eu8] + ff);
        assert(s.len() == 15);
        assert(s[8] == 0x2e);
        assert(s.subrange(9, 15) =~= ff);
        lemma_field(s, 9, fraction, 6);
    }
    assert(s[2] == 0x3a && s[5] == 0x3a);
    assert(s.subrange(0, 2) =~= hh);
    assert(s.subrange(3, 5) =~= mm);
    assert(s.subrange(6, 8) =~= ss);
    lemma_field(s, 0, h, 2);
    lemma_field(s, 3, mi, 2);
    lemma_field(s, 6, se, 2);
}

/// The text of a timestamp in the years 0 to 9999 denotes its date and its
/// microseconds since midnight.
pub proof fn lemma_timestamp_text(t: Timestamp)
    requires
        t.wf(),
        0 <= t.date.year <= 9999,
    ensures
        parse_timestamp(timestamp_cell(FormatCode::Text, t)) == Some(
            ((t.date.year as nat, t.date.month as nat, t.date.day as nat), t.micros_of_day as nat),
        ),
{
    let s = t.text();
    lemma_date_text(t.date);
    lemma_time_text(t);
    let d = t.date.text();
    let tt = t.time_text();
    assert(d.len() == 10) by {
        assert(parse_date(d) is Some);
    }
    assert(s =~= d + seq![0x20u8] + tt);
    assert(s[10] == 0x20);
    assert(s.subrange(0, 10) =~= d);
    assert(s.subrange(11, s.len() as int) =~= tt);
}

} // verus!
