//! The mapping of a date field: which format its dates are bound to, and
//! what the field's entry in an index mapping holds.

use crate::format::DateFormat;
use crate::formats::ChronoFormat;
use crate::geo_shape::{unit_code, DistanceUnit};
use std::marker::PhantomData;
use vstd::prelude::*;
use vstd::string::*;

verus! {

/// The data type that a date field has in an index mapping.
pub const DATE_DATATYPE: &'static str = "date";

/// What a setting of a mapping holds. This is the model of `MappingValue`.
pub ghost enum SettingValue {
    /// A text.
    Text(Seq<char>),
    /// A whole number.
    Integer(int),
    /// A switch.
    Flag(bool),
    /// A real number, as the bits of its IEEE 754 single.
    Real(int),
    /// A real number, as the bits of its IEEE 754 single, in a unit that is
    /// written so.
    Measure(int, Seq<char>),
}

/// What a setting of a mapping holds.
#[derive(Clone, Debug, PartialEq, Eq)]
pub enum MappingValue {
    /// A text.
    Text(String),
    /// A whole number.
    Integer(i32),
    /// A switch.
    Flag(bool),
    /// A real number, as the bits of its IEEE 754 single.
    Real(u32),
    /// A real number, as the bits of its IEEE 754 single, in a unit of
    /// distance.
    Measure(u32, DistanceUnit),
}

impl View for MappingValue {
    type V = SettingValue;

    open spec fn view(&self) -> SettingValue {
        match *self {
            MappingValue::Text(s) => SettingValue::Text(s@),
            MappingValue::Integer(n) => SettingValue::Integer(n as int),
            MappingValue::Flag(b) => SettingValue::Flag(b),
            MappingValue::Real(bits) => SettingValue::Real(bits as int),
            MappingValue::Measure(bits, unit) => SettingValue::Measure(
                bits as int,
                unit_code(unit),
            ),
        }
    }
}

/// One setting of a mapping: its name and what it holds.
#[derive(Clone, Debug, PartialEq, Eq)]
pub struct MappingField {
    /// The name of the setting.
    pub name: String,
    /// What the setting holds.
    pub value: MappingValue,
}

impl View for MappingField {
    type V = (Seq<char>, SettingValue);

    open spec fn view(&self) -> (Seq<char>, SettingValue) {
        (self.name@, self.value@)
    }
}

/// The settings that `fields` holds, in their order.
pub open spec fn settings(fields: Seq<MappingField>) -> Seq<(Seq<char>, SettingValue)> {
    Seq::new(fields.len(), |i: int| fields[i]@)
}

/// What a setting adds to the settings written so far: itself if it has a
/// value, nothing if it has none.
pub open spec fn with_setting(
    before: Seq<(Seq<char>, SettingValue)>,
    name: Seq<char>,
    value: Option<SettingValue>,
) -> Seq<(Seq<char>, SettingValue)> {
    match value {
        Some(v) => before.push((name, v)),
        None => before,
    }
}

/// The model of an optional value.
pub open spec fn value_model(value: Option<MappingValue>) -> Option<SettingValue> {
    match value {
        Some(v) => Some(v@),
        None => None,
    }
}

/// Writes the setting `name` after those in `out` if it has a value, and
/// leaves `out` as it is if it has none.
pub fn push_setting(out: &mut Vec<MappingField>, name: &str, value: Option<MappingValue>)
    ensures
        settings(final(out)@) == with_setting(settings(old(out)@), name@, value_model(value)),
{
    match value {
        Some(value) => {
            let field = MappingField { name: name.to_owned(), value };
            out.push(field);
        },
        None => {},
    }
}

/// The mapping of a date field. A mapping binds the field's dates to one
/// format; the rest of it is settings that only the index reads.
pub trait DateMapping: Sized {
    /// The format that the dates of the field are written in.
    type Format: DateFormat;

    /// Whether the index skips a malformed date in place of rejecting the
    /// document. Not set unless a mapping says so.
    fn ignore_malformed() -> (r: Option<bool>)
        default_ensures
            r is None,
    {
        None
    }
}

/// The mapping that sets nothing but the format, which is the strict
/// instant unless another is named.
#[derive(Debug, Default, PartialEq, Eq)]
pub struct DefaultDateMapping<F: DateFormat = ChronoFormat> {
    format: PhantomData<F>,
}

impl<F: DateFormat> DateMapping for DefaultDateMapping<F> {
    type Format = F;
}

/// The settings of a date field whose format has the name `format` and whose
/// `ignore_malformed` is as given.
pub open spec fn date_settings(format: Seq<char>, ignore_malformed: Option<bool>) -> Seq<
    (Seq<char>, SettingValue),
> {
    let fixed = seq![
        ("type"@, SettingValue::Text(DATE_DATATYPE@)),
        ("format"@, SettingValue::Text(format)),
    ];
    match ignore_malformed {
        Some(b) => fixed.push(("ignore_malformed"@, SettingValue::Flag(b))),
        None => fixed,
    }
}

/// The settings of a date field in the order an index mapping shows them:
/// the type, the format by its name, and `ignore_malformed` if it is set.
pub fn date_fields(format: &str, ignore_malformed: Option<bool>) -> (r: Vec<MappingField>)
    ensures
        settings(r@) == date_settings(format@, ignore_malformed),
{
    let mut out: Vec<MappingField> = Vec::new();
    push_setting(&mut out, "type", Some(MappingValue::Text(DATE_DATATYPE.to_owned())));
    push_setting(&mut out, "format", Some(MappingValue::Text(format.to_owned())));
    let flag = match ignore_malformed {
        Some(b) => Some(MappingValue::Flag(b)),
        None => None,
    };
    push_setting(&mut out, "ignore_malformed", flag);
    out
}

/// The settings of a date field with the mapping `M`. Whether
/// `ignore_malformed` is set is for `M` to say; the rest is fixed.
pub fn date_mapping_fields<M: DateMapping>() -> (r: Vec<MappingField>)
    ensures
        exists|flag: Option<bool>|
            call_ensures(M::ignore_malformed, (), flag) && settings(r@) == date_settings(
                M::Format::label(),
                flag,
            ),
{
    let flag = M::ignore_malformed();
    date_fields(M::Format::name(), flag)
}

} // verus!
