//! The formats that come with the crate: the compact basic date-time, the
//! epoch milliseconds, and the strict instant that chrono writes.

use crate::calendar::{
    in_calendar, instant_at, instant_of, lemma_epoch_millis_in_calendar, lemma_instant_at,
    lemma_instant_at_epoch_millis, Instant,
};
use crate::digits::{
    ascii_bytes, is_digit, is_plain_number, dec2, dec3, dec4, digits_at, lemma_dec2_num2, lemma_dec3_num3, lemma_dec4_num4,
    lemma_digits_in_place, lemma_num2_dec2, lemma_num3_dec3, lemma_num4_dec4,
    lemma_signed_dec_of_value, lemma_signed_value_of_dec, num2, num3, num4, push_dec2, push_dec3,
    push_dec4, push_signed_dec, read_num2, read_num3, read_num4, read_signed, signed_dec,
    signed_value,
};
use crate::format::{format_name, DateFormat, ParseError};
use crate::value::DateValue;
use chrono::{Datelike, Timelike};
use vstd::prelude::*;
use vstd::string::*;
use vstd::utf8::is_ascii_chars;

verus! {

/// The compact date-time of the pattern `yyyyMMdd'T'HHmmss.SSS'Z'`, as in
/// `20150513T000000.000Z`. Its name is `basic_date_time`.
#[derive(Clone, Copy, Debug, Default, PartialEq, Eq)]
pub struct BasicDateTime;

/// The milliseconds from the epoch as a decimal integer, as in
/// `1431475200000`. Its name is `epoch_millis`.
#[derive(Clone, Copy, Debug, Default, PartialEq, Eq)]
pub struct EpochMillis;

/// The text of `v` in the compact date-time format.
pub open spec fn basic_text(v: Instant) -> Seq<char> {
    dec4(v.year) + dec2(v.month) + dec2(v.day) + seq!['T'] + dec2(v.hour) + dec2(v.minute) + dec2(
        v.second,
    ) + seq!['.'] + dec3(v.milli) + seq!['Z']
}

/// The instant that `s` is the compact date-time of: twenty characters, each
/// field in its place with all its digits, and the fields an instant of the
/// calendar.
pub open spec fn basic_value(s: Seq<char>) -> Option<Instant> {
    let v = instant_of(
        num4(s, 0),
        num2(s, 4),
        num2(s, 6),
        num2(s, 9),
        num2(s, 11),
        num2(s, 13),
        num3(s, 16),
    );
    if s.len() == 20 && digits_at(s, 0, 4) && digits_at(s, 4, 2) && digits_at(s, 6, 2) && s[8]
        == 'T' && digits_at(s, 9, 2) && digits_at(s, 11, 2) && digits_at(s, 13, 2) && s[15] == '.'
        && digits_at(s, 16, 3) && s[19] == 'Z' && v.valid() {
        Some(v)
    } else {
        None
    }
}

impl DateFormat for BasicDateTime {
    open spec fn label() -> Seq<char> {
        "basic_date_time"@
    }

    open spec fn layout() -> Option<Seq<char>> {
        Some("yyyyMMdd'T'HHmmss.SSS'Z'"@)
    }

    open spec fn text_of(v: Instant) -> Seq<char> {
        basic_text(v)
    }

    open spec fn value_of(s: Seq<char>) -> Option<Instant> {
        basic_value(s)
    }

    proof fn lemma_reads_what_it_writes(v: Instant) {
        let s = basic_text(v);
        lemma_dec4_num4(v.year);
        lemma_dec2_num2(v.month);
        lemma_dec2_num2(v.day);
        lemma_dec2_num2(v.hour);
        lemma_dec2_num2(v.minute);
        lemma_dec2_num2(v.second);
        lemma_dec3_num3(v.milli);
        lemma_digits_in_place(s, 0, 4);
        lemma_digits_in_place(s, 4, 2);
        lemma_digits_in_place(s, 6, 2);
        lemma_digits_in_place(s, 9, 2);
        lemma_digits_in_place(s, 11, 2);
        lemma_digits_in_place(s, 13, 2);
        lemma_digits_in_place(s, 16, 3);
    }

    proof fn lemma_writes_what_it_reads(s: Seq<char>) {
        lemma_num4_dec4(s, 0);
        lemma_num2_dec2(s, 4);
        lemma_num2_dec2(s, 6);
        lemma_num2_dec2(s, 9);
        lemma_num2_dec2(s, 11);
        lemma_num2_dec2(s, 13);
        lemma_num3_dec3(s, 16);
    }

    fn name() -> (r: &'static str) {
        format_name(Some("basic_date_time"), "yyyyMMdd'T'HHmmss.SSS'Z'")
    }

    fn pattern() -> (r: Option<&'static str>) {
        Some("yyyyMMdd'T'HHmmss.SSS'Z'")
    }

    fn format(date: &DateValue) -> (r: String) {
        let mut out = String::new();
        push_dec4(&mut out, date.year() as u32);
        push_dec2(&mut out, date.month());
        push_dec2(&mut out, date.day());
        out.push('T');
        push_dec2(&mut out, date.hour());
        push_dec2(&mut out, date.minute());
        push_dec2(&mut out, date.second());
        out.push('.');
        push_dec3(&mut out, date.millisecond());
        out.push('Z');
        out
    }

    fn parse(date: &str) -> (r: Result<DateValue, ParseError>) {
        let b = match ascii_bytes(date) {
            Some(b) => b,
            None => {
                return Err(ParseError::new(date, Self::pattern()));
            },
        };
        if b.len() != 20 || b[8] != 84 || b[15] != 46 || b[19] != 90 {
            return Err(ParseError::new(date, Self::pattern()));
        }
        let ghost s = date@;
        let fields = (
            read_num4(b, 0, Ghost(s)),
            read_num2(b, 4, Ghost(s)),
            read_num2(b, 6, Ghost(s)),
            read_num2(b, 9, Ghost(s)),
            read_num2(b, 11, Ghost(s)),
            read_num2(b, 13, Ghost(s)),
            read_num3(b, 16, Ghost(s)),
        );
        match fields {
            (
                Some(year),
                Some(month),
                Some(day),
                Some(hour),
                Some(minute),
                Some(second),
                Some(milli),
            ) => {
                match DateValue::checked_build(
                    year as i32,
                    month,
                    day,
                    hour,
                    minute,
                    second,
                    milli,
                ) {
                    Some(v) => Ok(v),
                    None => Err(ParseError::new(date, Self::pattern())),
                }
            },
            _ => Err(ParseError::new(date, Self::pattern())),
        }
    }
}

/// The text of `v` in the epoch milliseconds format.
pub open spec fn epoch_text(v: Instant) -> Seq<char> {
    signed_dec(v.epoch_millis())
}

/// The instant that `s` is the epoch milliseconds of: an integer as
/// `signed_dec` writes one, with no `+`, no leading zero and no `-0`, that
/// is within the calendar.
pub open spec fn epoch_value(s: Seq<char>) -> Option<Instant> {
    match signed_value(s) {
        Some(ms) => if in_calendar(ms) {
            Some(instant_at(ms))
        } else {
            None
        },
        None => None,
    }
}

/// A text with a character outside ASCII is no integer.
proof fn lemma_integer_is_ascii(s: Seq<char>)
    requires
        signed_value(s) is Some,
    ensures
        is_ascii_chars(s),
{
    assert forall|i: int| 0 <= i < s.len() implies '\0' <= #[trigger] s[i] <= '\u{7f}' by {
        if !is_plain_number(s) && i >= 1 {
            assert(is_digit(s.skip(1)[i - 1]));
        }
    }
}

impl DateFormat for EpochMillis {
    open spec fn label() -> Seq<char> {
        "epoch_millis"@
    }

    open spec fn layout() -> Option<Seq<char>> {
        None
    }

    open spec fn text_of(v: Instant) -> Seq<char> {
        epoch_text(v)
    }

    open spec fn value_of(s: Seq<char>) -> Option<Instant> {
        epoch_value(s)
    }

    proof fn lemma_reads_what_it_writes(v: Instant) {
        lemma_signed_value_of_dec(v.epoch_millis());
        lemma_epoch_millis_in_calendar(v);
        lemma_instant_at_epoch_millis(v);
    }

    proof fn lemma_writes_what_it_reads(s: Seq<char>) {
        lemma_instant_at(signed_value(s).unwrap());
        lemma_signed_dec_of_value(s);
    }

    fn name() -> (r: &'static str) {
        "epoch_millis"
    }

    fn pattern() -> (r: Option<&'static str>) {
        None
    }

    fn format(date: &DateValue) -> (r: String) {
        let mut out = String::new();
        push_signed_dec(&mut out, date.epoch_millis());
        out
    }

    fn parse(date: &str) -> (r: Result<DateValue, ParseError>) {
        let b = match ascii_bytes(date) {
            Some(b) => b,
            None => {
                proof {
                    if signed_value(date@) is Some {
                        lemma_integer_is_ascii(date@);
                    }
                }
                return Err(ParseError::new(date, Self::pattern()));
            },
        };
        match read_signed(b, 1_000_000_000_000_000, Ghost(date@)) {
            Some(ms) => match DateValue::from_epoch_millis(ms) {
                Some(v) => Ok(v),
                None => Err(ParseError::new(date, Self::pattern())),
            },
            None => Err(ParseError::new(date, Self::pattern())),
        }
    }
}

/// The strict instant that chrono writes, as in `2015-05-13T00:00:00Z`:
/// RFC 3339 in UTC with a `Z`, and the milliseconds only where there are
/// any. Its name is `strict_date_optional_time`.
#[derive(Clone, Copy, Debug, Default, PartialEq, Eq)]
pub struct ChronoFormat;

/// The format of a date that names none.
pub type DefaultDateFormat = ChronoFormat;

/// The fraction of a second in the strict instant: nothing for a whole
/// second, else a point and three digits.
pub open spec fn strict_fraction(milli: int) -> Seq<char> {
    if milli == 0 {
        Seq::empty()
    } else {
        seq!['.'] + dec3(milli)
    }
}

/// The text of `v` as a strict instant.
pub open spec fn strict_text(v: Instant) -> Seq<char> {
    dec4(v.year) + seq!['-'] + dec2(v.month) + seq!['-'] + dec2(v.day) + seq!['T'] + dec2(v.hour)
        + seq![':'] + dec2(v.minute) + seq![':'] + dec2(v.second) + strict_fraction(v.milli)
        + seq!['Z']
}

/// The instant that `s` is the strict instant of: twenty characters for a
/// whole second, twenty-four with milliseconds that are not zero, each field
/// in its place, and the fields an instant of the calendar.
pub open spec fn strict_value(s: Seq<char>) -> Option<Instant> {
    let milli = if s.len() == 24 {
        num3(s, 20)
    } else {
        0
    };
    let v = instant_of(
        num4(s, 0),
        num2(s, 5),
        num2(s, 8),
        num2(s, 11),
        num2(s, 14),
        num2(s, 17),
        milli,
    );
    let whole = s.len() == 20 && s[19] == 'Z';
    let split = s.len() == 24 && s[19] == '.' && digits_at(s, 20, 3) && milli != 0 && s[23]
        == 'Z';
    if (whole || split) && digits_at(s, 0, 4) && s[4] == '-' && digits_at(s, 5, 2) && s[7] == '-'
        && digits_at(s, 8, 2) && s[10] == 'T' && digits_at(s, 11, 2) && s[13] == ':'
        && digits_at(s, 14, 2) && s[16] == ':' && digits_at(s, 17, 2) && v.valid() {
        Some(v)
    } else {
        None
    }
}

/// Writes the instant of the given fields with chrono: the date is made by
/// `NaiveDate::from_ymd_opt` and `and_hms_milli_opt`, which return `Some`
/// for the fields of an instant of the calendar, and written by
/// `DateTime::<Utc>::to_rfc3339_opts` with `SecondsFormat::AutoSi` and `Z`
/// for UTC. For a year from 0 to 9999 that is the year in four digits, month
/// and day in two between hyphens, `T`, the time in two digits each between
/// colons, a point and three digits where the milliseconds are not zero, and
/// `Z`.
#[verifier::external_body]
fn rfc3339_text(
    year: i32,
    month: u32,
    day: u32,
    hour: u32,
    minute: u32,
    second: u32,
    milli: u32,
) -> (r: String)
    requires
        instant_of(
            year as int,
            month as int,
            day as int,
            hour as int,
            minute as int,
            second as int,
            milli as int,
        ).valid(),
    ensures
        r@ == strict_text(
            instant_of(
                year as int,
                month as int,
                day as int,
                hour as int,
                minute as int,
                second as int,
                milli as int,
            ),
        ),
{
    let date = chrono::NaiveDate::from_ymd_opt(year, month, day).unwrap();
    let time = date.and_hms_milli_opt(hour, minute, second, milli).unwrap();
    time.and_utc().to_rfc3339_opts(chrono::SecondsFormat::AutoSi, true)
}

/// Reads `s` with `chrono::DateTime::parse_from_rfc3339` and gives the
/// fields of the instant in UTC, or `None` where chrono rejects `s`. chrono
/// accepts more than the strict instant (other offsets, a space for the `T`,
/// longer fractions); this states only that a strict instant is read as the
/// instant that it names.
#[verifier::external_body]
fn rfc3339_fields(s: &str) -> (r: Option<(i32, u32, u32, u32, u32, u32, u32)>)
    ensures
        forall|v: Instant|
            v.valid() && s@ == #[trigger] strict_text(v) ==> r == Some(
                (
                    v.year as i32,
                    v.month as u32,
                    v.day as u32,
                    v.hour as u32,
                    v.minute as u32,
                    v.second as u32,
                    v.milli as u32,
                ),
            ),
{
    let t = chrono::DateTime::parse_from_rfc3339(s).ok()?.to_utc();
    let date = (t.year(), t.month(), t.day());
    let time = (t.hour(), t.minute(), t.second(), t.timestamp_subsec_millis());
    Some((date.0, date.1, date.2, time.0, time.1, time.2, time.3))
}

impl DateFormat for ChronoFormat {
    open spec fn label() -> Seq<char> {
        "strict_date_optional_time"@
    }

    open spec fn layout() -> Option<Seq<char>> {
        None
    }

    open spec fn text_of(v: Instant) -> Seq<char> {
        strict_text(v)
    }

    open spec fn value_of(s: Seq<char>) -> Option<Instant> {
        strict_value(s)
    }

    proof fn lemma_reads_what_it_writes(v: Instant) {
        let s = strict_text(v);
        lemma_dec4_num4(v.year);
        lemma_dec2_num2(v.month);
        lemma_dec2_num2(v.day);
        lemma_dec2_num2(v.hour);
        lemma_dec2_num2(v.minute);
        lemma_dec2_num2(v.second);
        lemma_dec3_num3(v.milli);
        assert(s.len() == if v.milli == 0 {
            20int
        } else {
            24int
        });
        lemma_digits_in_place(s, 0, 4);
        lemma_digits_in_place(s, 5, 2);
        lemma_digits_in_place(s, 8, 2);
        lemma_digits_in_place(s, 11, 2);
        lemma_digits_in_place(s, 14, 2);
        lemma_digits_in_place(s, 17, 2);
        if v.milli != 0 {
            lemma_digits_in_place(s, 20, 3);
        }
    }

    proof fn lemma_writes_what_it_reads(s: Seq<char>) {
        lemma_num4_dec4(s, 0);
        lemma_num2_dec2(s, 5);
        lemma_num2_dec2(s, 8);
        lemma_num2_dec2(s, 11);
        lemma_num2_dec2(s, 14);
        lemma_num2_dec2(s, 17);
        if s.len() == 24 {
            lemma_num3_dec3(s, 20);
        }
    }

    fn name() -> (r: &'static str) {
        "strict_date_optional_time"
    }

    fn pattern() -> (r: Option<&'static str>) {
        None
    }

    fn format(date: &DateValue) -> (r: String) {
        rfc3339_text(
            date.year(),
            date.month(),
            date.day(),
            date.hour(),
            date.minute(),
            date.second(),
            date.millisecond(),
        )
    }

    fn parse(date: &str) -> (r: Result<DateValue, ParseError>) {
        proof {
            if strict_value(date@) is Some {
                Self::lemma_writes_what_it_reads(date@);
            }
        }
        let read = match rfc3339_fields(date) {
            Some((year, month, day, hour, minute, second, milli)) => DateValue::checked_build(
                year,
                month,
                day,
                hour,
                minute,
                second,
                milli,
            ),
            None => None,
        };
        match read {
            Some(v) => {
                let text = Self::format(&v);
                let given = date.to_owned();
                if text == given {
                    proof {
                        Self::lemma_reads_what_it_writes(v@);
                    }
                    Ok(v)
                } else {
                    Err(ParseError::new(date, Self::pattern()))
                }
            },
            None => Err(ParseError::new(date, Self::pattern())),
        }
    }
}

} // verus!
