//! What a date format is: a name, a way to write an instant as text, and a
//! way to read it back. A format holds no state; it is a type that dates
//! carry in their own type, so that two formats are never mixed by accident.

use crate::calendar::Instant;
use crate::value::DateValue;
use std::marker::PhantomData;
use vstd::prelude::*;
use vstd::std_specs::cmp::PartialEqSpecImpl;
use vstd::std_specs::convert::FromSpecImpl;
use vstd::string::*;

verus! {

/// A text that a format could not read.
#[derive(Clone, Debug, PartialEq, Eq)]
pub struct ParseError {
    /// The text that was rejected.
    pub text: String,
    /// The pattern that the text was held against, where the format has one.
    pub pattern: Option<String>,
}

/// The text of the pattern that an error names, if it names one.
pub open spec fn pattern_text(pattern: Option<String>) -> Option<Seq<char>> {
    match pattern {
        Some(p) => Some(p@),
        None => None,
    }
}

impl ParseError {
    /// What `message` says of a rejected `text` and the `pattern` it was
    /// held against.
    pub open spec fn message_text(text: Seq<char>, pattern: Option<Seq<char>>) -> Seq<char> {
        match pattern {
            Some(p) => "the date `"@ + text + "` does not match the pattern `"@ + p + "`"@,
            None => "the date `"@ + text + "` does not match the format"@,
        }
    }

    /// The error for `text`, which did not match `pattern`.
    pub fn new(text: &str, pattern: Option<&str>) -> (e: ParseError)
        ensures
            e.text@ == text@,
            pattern_text(e.pattern) == (match pattern {
                Some(p) => Some(p@),
                None => None,
            }),
    {
        let pattern = match pattern {
            Some(p) => Some(p.to_owned()),
            None => None,
        };
        ParseError { text: text.to_owned(), pattern }
    }

    /// A sentence that names the rejected text and, where there is one, the
    /// pattern that it did not match.
    pub fn message(&self) -> (r: String)
        ensures
            r@ == Self::message_text(self.text@, pattern_text(self.pattern)),
    {
        let mut out = String::from_str("the date `");
        out.append(self.text.as_str());
        match &self.pattern {
            Some(p) => {
                out.append("` does not match the pattern `");
                out.append(p.as_str());
                out.append("`");
            },
            None => {
                out.append("` does not match the format");
            },
        }
        out
    }
}

/// A date format: the contract that every format keeps.
///
/// `text_of` and `value_of` say what the format writes and reads. The two
/// lemmas are part of the contract: what a format writes it reads back as
/// the same instant, and what it reads it writes back as the same text.
pub trait DateFormat: Sized {
    /// The name that a mapping shows for this format.
    spec fn label() -> Seq<char>;

    /// The pattern of this format, where it is written after one.
    spec fn layout() -> Option<Seq<char>>;

    /// The text that this format writes for `v`.
    spec fn text_of(v: Instant) -> Seq<char>;

    /// The instant that `s` is the text of, or `None` where this format does
    /// not accept `s`. The whole of `s` must match: no prefix is enough and
    /// nothing is skipped.
    spec fn value_of(s: Seq<char>) -> Option<Instant>;

    /// What this format writes for an instant, it reads as that instant.
    proof fn lemma_reads_what_it_writes(v: Instant)
        requires
            v.valid(),
        ensures
            Self::value_of(Self::text_of(v)) == Some(v),
    ;

    /// What this format accepts is an instant of the calendar, and the text
    /// that the format writes for it is the accepted text itself.
    proof fn lemma_writes_what_it_reads(s: Seq<char>)
        requires
            Self::value_of(s) is Some,
        ensures
            Self::value_of(s).unwrap().valid(),
            Self::text_of(Self::value_of(s).unwrap()) == s,
    ;

    /// The name of this format.
    fn name() -> (r: &'static str)
        ensures
            r@ == Self::label(),
    ;

    /// The pattern of this format, where it has one.
    fn pattern() -> (r: Option<&'static str>)
        ensures
            match r {
                Some(p) => Self::layout() == Some(p@),
                None => Self::layout() is None,
            },
    ;

    /// Writes `date` as text.
    fn format(date: &DateValue) -> (r: String)
        ensures
            r@ == Self::text_of(date@),
    ;

    /// Reads `date`, the whole of it, or says why it is no date of this
    /// format.
    fn parse(date: &str) -> (r: Result<DateValue, ParseError>)
        ensures
            match r {
                Ok(v) => Self::value_of(date@) == Some(v@),
                Err(e) => Self::value_of(date@) is None && e.text@ == date@ && pattern_text(
                    e.pattern,
                ) == Self::layout(),
            },
    ;
}

/// Every format reads what it writes: for any format and any instant of the
/// calendar, reading the text that the format writes for the instant gives
/// the instant back.
pub proof fn lemma_parse_of_format<F: DateFormat>(v: Instant)
    requires
        v.valid(),
    ensures
        F::value_of(F::text_of(v)) == Some(v),
{
    F::lemma_reads_what_it_writes(v);
}

/// Every format writes what it reads: for any format and any text that the
/// format accepts, writing the instant that the text stands for gives the
/// text back, character for character.
pub proof fn lemma_format_of_parse<F: DateFormat>(s: Seq<char>)
    requires
        F::value_of(s) is Some,
    ensures
        F::text_of(F::value_of(s).unwrap()) == s,
{
    F::lemma_writes_what_it_reads(s);
}

/// No format writes two instants of the calendar as the same text.
pub proof fn lemma_texts_differ<F: DateFormat>(a: Instant, b: Instant)
    requires
        a.valid(),
        b.valid(),
        a != b,
    ensures
        F::text_of(a) != F::text_of(b),
{
    F::lemma_reads_what_it_writes(a);
    F::lemma_reads_what_it_writes(b);
}

/// A date loses nothing when it moves from one format to another: what the
/// format `F` reads from `s` and the format `G` writes, `G` reads as the
/// same instant, and `F` writes that instant as `s` again.
pub proof fn lemma_formats_share_instants<F: DateFormat, G: DateFormat>(s: Seq<char>)
    requires
        F::value_of(s) is Some,
    ensures
        G::value_of(G::text_of(F::value_of(s).unwrap())) == F::value_of(s),
        F::text_of(G::value_of(G::text_of(F::value_of(s).unwrap())).unwrap()) == s,
{
    F::lemma_writes_what_it_reads(s);
    G::lemma_reads_what_it_writes(F::value_of(s).unwrap());
}

/// The name of a format that is written after a pattern: the name of its
/// own if it has one, else the pattern itself.
pub fn format_name(name: Option<&'static str>, pattern: &'static str) -> (r: &'static str)
    ensures
        r@ == (match name {
            Some(n) => n@,
            None => pattern@,
        }),
{
    match name {
        Some(n) => n,
        None => pattern,
    }
}

/// A date value bound to one format. The format is fixed for as long as the
/// value lives; `into_value` gives the bare value back, and a value of
/// another format can only be made from that.
#[derive(Debug)]
pub struct FormattableDateValue<F: DateFormat> {
    /// The bare value.
    pub value: DateValue,
    /// The format that the value is bound to.
    pub format: PhantomData<F>,
}

impl<F: DateFormat> View for FormattableDateValue<F> {
    type V = Instant;

    open spec fn view(&self) -> Instant {
        self.value@
    }
}

impl<F: DateFormat> PartialEq for FormattableDateValue<F> {
    fn eq(&self, other: &FormattableDateValue<F>) -> (r: bool) {
        self.value.same_instant(&other.value)
    }
}

impl<F: DateFormat> Eq for FormattableDateValue<F> {

}

impl<F: DateFormat> PartialEqSpecImpl for FormattableDateValue<F> {
    open spec fn obeys_eq_spec() -> bool {
        true
    }

    open spec fn eq_spec(&self, other: &FormattableDateValue<F>) -> bool {
        self@ == other@
    }
}

impl<F: DateFormat> Clone for FormattableDateValue<F> {
    fn clone(&self) -> (r: Self)
        ensures
            r == *self,
    {
        FormattableDateValue { value: self.value, format: PhantomData }
    }
}

impl<F: DateFormat> From<DateValue> for FormattableDateValue<F> {
    fn from(value: DateValue) -> (r: Self) {
        FormattableDateValue { value, format: PhantomData }
    }
}

impl<F: DateFormat> FromSpecImpl<DateValue> for FormattableDateValue<F> {
    open spec fn obeys_from_spec() -> bool {
        true
    }

    open spec fn from_spec(v: DateValue) -> Self {
        FormattableDateValue { value: v, format: PhantomData }
    }
}

impl<F: DateFormat> From<FormattableDateValue<F>> for DateValue {
    fn from(value: FormattableDateValue<F>) -> (r: Self) {
        value.value
    }
}

impl<F: DateFormat> FromSpecImpl<FormattableDateValue<F>> for DateValue {
    open spec fn obeys_from_spec() -> bool {
        true
    }

    open spec fn from_spec(v: FormattableDateValue<F>) -> Self {
        v.value
    }
}

impl<F: DateFormat> FormattableDateValue<F> {
    /// Binds `value` to the format `F`.
    pub fn new(value: DateValue) -> (r: Self)
        ensures
            r == (FormattableDateValue::<F> { value, format: PhantomData }),
    {
        FormattableDateValue { value, format: PhantomData }
    }

    /// The bare value, with no format.
    pub fn into_value(self) -> (r: DateValue)
        ensures
            r == self.value,
    {
        self.value
    }

    /// The bare value, borrowed.
    pub fn value(&self) -> (r: &DateValue)
        ensures
            *r == self.value,
    {
        &self.value
    }

    /// The text of the value in the format `F`.
    pub fn format(&self) -> (r: String)
        ensures
            r@ == F::text_of(self@),
    {
        F::format(&self.value)
    }

    /// Reads `date` in the format `F`.
    pub fn parse(date: &str) -> (r: Result<Self, ParseError>)
        ensures
            match r {
                Ok(v) => F::value_of(date@) == Some(v@),
                Err(e) => F::value_of(date@) is None && e.text@ == date@ && pattern_text(
                    e.pattern,
                ) == F::layout(),
            },
    {
        match F::parse(date) {
            Ok(value) => Ok(FormattableDateValue::new(value)),
            Err(e) => Err(e),
        }
    }
}

} // verus!
