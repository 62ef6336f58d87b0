//! The date of a document field: a date value bound to the format of the
//! field's mapping. The mapping is part of the date's type, so dates of two
//! mappings are never mixed without `remap` saying so.

use crate::calendar::{in_calendar, instant_at, instant_of, Instant};
use crate::digits::{dec, push_dec, push_signed_dec, signed_dec};
use crate::format::{pattern_text, DateFormat, FormattableDateValue, ParseError};
use crate::mapping::DateMapping;
use crate::value::DateValue;
use std::marker::PhantomData;
use vstd::prelude::*;
use vstd::std_specs::cmp::PartialEqSpecImpl;
use vstd::std_specs::convert::{FromSpecImpl, IntoSpec};
use vstd::string::*;

verus! {

/// What a date field is read from: a document gives a date as a text or as
/// a whole number, and anything else is no date.
#[derive(Clone, Debug, PartialEq, Eq)]
pub enum DateInput {
    /// A text.
    Text(String),
    /// A whole number with a sign.
    Integer(i64),
    /// A whole number without a sign.
    Unsigned(u64),
    /// Anything that is neither a text nor a whole number.
    Other,
}

/// Why a date field could not be read.
#[derive(Clone, Debug, PartialEq, Eq)]
pub enum DateError {
    /// The text is no date of the field's format.
    Parse(ParseError),
    /// The input is neither a text nor a whole number.
    UnsupportedInputShape,
}

/// The text that an input is read as: a text as it is, a number in decimal,
/// and nothing for any other input.
pub open spec fn input_text(input: DateInput) -> Option<Seq<char>> {
    match input {
        DateInput::Text(s) => Some(s@),
        DateInput::Integer(n) => Some(signed_dec(n as int)),
        DateInput::Unsigned(n) => Some(dec(n as nat)),
        DateInput::Other => None,
    }
}

/// A date with the mapping `M`, which binds it to the format `M::Format`.
/// Two dates are equal where they are the same instant, and a date equals a
/// date value where it is that instant, whatever its format.
#[derive(Debug)]
pub struct Date<M: DateMapping> {
    /// The value, bound to the format of the mapping.
    pub value: FormattableDateValue<M::Format>,
}

impl<M: DateMapping> View for Date<M> {
    type V = Instant;

    open spec fn view(&self) -> Instant {
        self.value@
    }
}

impl<M: DateMapping> Clone for Date<M> {
    fn clone(&self) -> (r: Self)
        ensures
            r == *self,
    {
        Date { value: self.value.clone() }
    }
}

impl<M: DateMapping> PartialEq for Date<M> {
    fn eq(&self, other: &Date<M>) -> (r: bool) {
        self.value.value().same_instant(other.value.value())
    }
}

impl<M: DateMapping> Eq for Date<M> {

}

impl<M: DateMapping> PartialEqSpecImpl for Date<M> {
    open spec fn obeys_eq_spec() -> bool {
        true
    }

    open spec fn eq_spec(&self, other: &Date<M>) -> bool {
        self@ == other@
    }
}

impl<M: DateMapping> PartialEq<DateValue> for Date<M> {
    fn eq(&self, other: &DateValue) -> (r: bool) {
        self.value.value().same_instant(other)
    }
}

impl<M: DateMapping> PartialEqSpecImpl<DateValue> for Date<M> {
    open spec fn obeys_eq_spec() -> bool {
        true
    }

    open spec fn eq_spec(&self, other: &DateValue) -> bool {
        self@ == other@
    }
}

impl<M: DateMapping> PartialEq<Date<M>> for DateValue {
    fn eq(&self, other: &Date<M>) -> (r: bool) {
        self.same_instant(other.value.value())
    }
}

impl<M: DateMapping> PartialEqSpecImpl<Date<M>> for DateValue {
    open spec fn obeys_eq_spec() -> bool {
        true
    }

    open spec fn eq_spec(&self, other: &Date<M>) -> bool {
        self@ == other@
    }
}

impl<M: DateMapping> From<DateValue> for Date<M> {
    fn from(value: DateValue) -> (r: Self) {
        Date { value: FormattableDateValue { value, format: PhantomData } }
    }
}

impl<M: DateMapping> FromSpecImpl<DateValue> for Date<M> {
    open spec fn obeys_from_spec() -> bool {
        true
    }

    open spec fn from_spec(value: DateValue) -> Self {
        Date { value: FormattableDateValue { value, format: PhantomData } }
    }
}

impl<M: DateMapping> From<FormattableDateValue<M::Format>> for Date<M> {
    fn from(value: FormattableDateValue<M::Format>) -> (r: Self) {
        Date { value }
    }
}

impl<M: DateMapping> FromSpecImpl<FormattableDateValue<M::Format>> for Date<M> {
    open spec fn obeys_from_spec() -> bool {
        true
    }

    open spec fn from_spec(value: FormattableDateValue<M::Format>) -> Self {
        Date { value }
    }
}

impl<M: DateMapping> From<Date<M>> for FormattableDateValue<M::Format> {
    fn from(date: Date<M>) -> (r: Self) {
        date.value
    }
}

impl<M: DateMapping> FromSpecImpl<Date<M>> for FormattableDateValue<M::Format> {
    open spec fn obeys_from_spec() -> bool {
        true
    }

    open spec fn from_spec(date: Date<M>) -> Self {
        date.value
    }
}

impl<M: DateMapping> From<Date<M>> for DateValue {
    fn from(date: Date<M>) -> (r: Self) {
        date.value.value
    }
}

impl<M: DateMapping> FromSpecImpl<Date<M>> for DateValue {
    open spec fn obeys_from_spec() -> bool {
        true
    }

    open spec fn from_spec(date: Date<M>) -> Self {
        date.value.value
    }
}

impl<M: DateMapping> Date<M> {
    /// The same instant as a date of the mapping `MInto`.
    pub open spec fn remapped<MInto: DateMapping>(self) -> Date<MInto> {
        Date { value: FormattableDateValue { value: self.value.value, format: PhantomData } }
    }

    /// The date of anything that converts into a value bound to the
    /// mapping's format: a bare date value, a bound value, or a date of a
    /// mapping with the same format.
    ///
    /// The result is stated through the conversion's own statement. A bound
    /// value converts into itself by the identity conversion, which has no
    /// statement: a caller that is to prove what the date is makes it of a
    /// bound value with `Date::from`, or passes the bare value here.
    pub fn new<I: Into<FormattableDateValue<M::Format>>>(date: I) -> (r: Self)
        ensures
            I::obeys_into_spec() ==> r.value == date.into_spec(),
    {
        Date { value: date.into() }
    }

    /// The date of the given calendar fields, which must name an instant of
    /// the calendar.
    pub fn build(
        year: i32,
        month: u32,
        day: u32,
        hour: u32,
        minute: u32,
        second: u32,
        milli: u32,
    ) -> (r: Self)
        requires
            instant_of(
                year as int,
                month as int,
                day as int,
                hour as int,
                minute as int,
                second as int,
                milli as int,
            ).valid(),
        ensures
            r@ == instant_of(
                year as int,
                month as int,
                day as int,
                hour as int,
                minute as int,
                second as int,
                milli as int,
            ),
    {
        Date {
            value: FormattableDateValue::new(
                DateValue::build(year, month, day, hour, minute, second, milli),
            ),
        }
    }

    /// The date of the given calendar fields, or `None` if they name no
    /// instant of the calendar.
    pub fn checked_build(
        year: i32,
        month: u32,
        day: u32,
        hour: u32,
        minute: u32,
        second: u32,
        milli: u32,
    ) -> (r: Option<Self>)
        ensures
            match r {
                Some(d) => d@ == instant_of(
                    year as int,
                    month as int,
                    day as int,
                    hour as int,
                    minute as int,
                    second as int,
                    milli as int,
                ) && d@.valid(),
                None => !instant_of(
                    year as int,
                    month as int,
                    day as int,
                    hour as int,
                    minute as int,
                    second as int,
                    milli as int,
                ).valid(),
            },
    {
        match DateValue::checked_build(year, month, day, hour, minute, second, milli) {
            Some(value) => Some(Date { value: FormattableDateValue::new(value) }),
            None => None,
        }
    }

    /// The instant that the system clock shows, or `None` if the clock is
    /// set outside the calendar: the date of what `DateValue::now` gives,
    /// whatever the clock's reading is.
    pub fn now() -> (r: Option<Self>)
        ensures
            exists|ms: int|
                match r {
                    Some(d) => #[trigger] in_calendar(ms) && d@ == instant_at(ms),
                    None => !in_calendar(ms),
                },
            r matches Some(d) ==> d@.valid(),
    {
        match DateValue::now() {
            Some(value) => Some(Date { value: FormattableDateValue::new(value) }),
            None => None,
        }
    }

    /// The same instant as a date of the mapping `MInto`.
    pub fn remap<MInto: DateMapping>(date: Date<M>) -> (r: Date<MInto>)
        ensures
            r == date.remapped::<MInto>(),
            r@ == date@,
    {
        Date { value: FormattableDateValue::new(date.value.into_value()) }
    }

    /// The date value, with no format.
    pub fn value(&self) -> (r: &DateValue)
        ensures
            r@ == self@,
            self@.valid(),
    {
        let r = self.value.value();
        proof {
            use_type_invariant(r);
        }
        r
    }

    /// The year, from 0 to 9999.
    pub fn year(&self) -> (r: i32)
        ensures
            r == self@.year,
    {
        self.value.value().year()
    }

    /// The month, from 1 to 12.
    pub fn month(&self) -> (r: u32)
        ensures
            r == self@.month,
    {
        self.value.value().month()
    }

    /// The day of the month, from 1.
    pub fn day(&self) -> (r: u32)
        ensures
            r == self@.day,
    {
        self.value.value().day()
    }

    /// The hour, from 0 to 23.
    pub fn hour(&self) -> (r: u32)
        ensures
            r == self@.hour,
    {
        self.value.value().hour()
    }

    /// The minute, from 0 to 59.
    pub fn minute(&self) -> (r: u32)
        ensures
            r == self@.minute,
    {
        self.value.value().minute()
    }

    /// The second, from 0 to 59.
    pub fn second(&self) -> (r: u32)
        ensures
            r == self@.second,
    {
        self.value.value().second()
    }

    /// The millisecond within the second, from 0 to 999.
    pub fn millisecond(&self) -> (r: u32)
        ensures
            r == self@.milli,
    {
        self.value.value().millisecond()
    }

    /// The nanosecond within the second: the millisecond times a million.
    pub fn nanosecond(&self) -> (r: u32)
        ensures
            r == self@.milli * 1_000_000,
    {
        self.value.value().nanosecond()
    }

    /// Whether this date is the instant `other`, whatever its format.
    pub fn same_instant(&self, other: &DateValue) -> (r: bool)
        ensures
            r == (self@ == other@),
    {
        self.value.value().same_instant(other)
    }

    /// Whether this date is earlier than the instant `other`, whatever its
    /// format.
    pub fn precedes(&self, other: &DateValue) -> (r: bool)
        ensures
            r == (self@.epoch_millis() < other@.epoch_millis()),
    {
        self.value.value().precedes(other)
    }

    /// The text of this date in the format of its mapping. This is what a
    /// document holds for the field.
    pub fn serialize(&self) -> (r: String)
        ensures
            r@ == M::Format::text_of(self@),
    {
        format(self)
    }

    /// Reads a date field. A text is read in the format of the mapping, a
    /// whole number is read as its decimal text in that format, and any
    /// other input is refused.
    pub fn deserialize(input: &DateInput) -> (r: Result<Self, DateError>)
        ensures
            match input_text(*input) {
                Some(text) => match r {
                    Ok(d) => M::Format::value_of(text) == Some(d@),
                    Err(DateError::Parse(e)) => M::Format::value_of(text) is None && e.text@
                        == text && pattern_text(e.pattern) == M::Format::layout(),
                    Err(DateError::UnsupportedInputShape) => false,
                },
                None => r == Err::<Self, DateError>(DateError::UnsupportedInputShape),
            },
    {
        let parsed = match input {
            DateInput::Text(text) => parse::<M>(text.as_str()),
            DateInput::Integer(n) => {
                let mut text = String::new();
                push_signed_dec(&mut text, *n);
                parse::<M>(text.as_str())
            },
            DateInput::Unsigned(n) => {
                let mut text = String::new();
                push_dec(&mut text, *n);
                parse::<M>(text.as_str())
            },
            DateInput::Other => {
                return Err(DateError::UnsupportedInputShape);
            },
        };
        match parsed {
            Ok(date) => Ok(date),
            Err(e) => Err(DateError::Parse(e)),
        }
    }
}

/// The text of `date` in the format of its mapping.
pub fn format<M: DateMapping>(date: &Date<M>) -> (r: String)
    ensures
        r@ == M::Format::text_of(date@),
{
    date.value.format()
}

/// Reads `date` in the format of the mapping `M`: the date that the whole
/// text stands for, or the error that names the text.
pub fn parse<M: DateMapping>(date: &str) -> (r: Result<Date<M>, ParseError>)
    ensures
        match r {
            Ok(d) => M::Format::value_of(date@) == Some(d@),
            Err(e) => M::Format::value_of(date@) is None && e.text@ == date@ && pattern_text(
                e.pattern,
            ) == M::Format::layout(),
        },
{
    match FormattableDateValue::<M::Format>::parse(date) {
        Ok(value) => Ok(Date { value }),
        Err(e) => Err(e),
    }
}

/// A date keeps its instant when its mapping is changed, whatever the two
/// mappings are, and so each of its calendar fields. Changed back to its
/// first mapping, it is the date that it was.
pub proof fn lemma_remap_keeps_instant<M: DateMapping, MInto: DateMapping>(date: Date<M>)
    ensures
        date.remapped::<MInto>()@ == date@,
        date.remapped::<MInto>()@.year == date@.year,
        date.remapped::<MInto>()@.month == date@.month,
        date.remapped::<MInto>()@.day == date@.day,
        date.remapped::<MInto>()@.hour == date@.hour,
        date.remapped::<MInto>()@.minute == date@.minute,
        date.remapped::<MInto>()@.second == date@.second,
        date.remapped::<MInto>()@.milli == date@.milli,
        date.remapped::<MInto>().remapped::<M>() == date,
{
}

} // verus!
