use chrono::{Datelike, Timelike};
use elastic_types::calendar::{MAX_EPOCH_MILLIS, MIN_EPOCH_MILLIS};
use elastic_types::format::format_name;
use elastic_types::prelude::{
    BasicDateTime, ChronoFormat, DateFormat, DateValue, EpochMillis, FormattableDateValue,
    ParseError,
};

fn fields(v: &DateValue) -> (i32, u32, u32, u32, u32, u32, u32) {
    (v.year(), v.month(), v.day(), v.hour(), v.minute(), v.second(), v.millisecond())
}

fn sample_values() -> Vec<DateValue> {
    let mut out = Vec::new();
    let years = [0, 1, 4, 99, 100, 400, 1582, 1600, 1900, 1969, 1970, 1999, 2000, 2015, 2016, 9999];
    let times = [(0, 0, 0, 0), (0, 0, 0, 1), (12, 34, 56, 789), (23, 59, 59, 999), (9, 5, 7, 40)];
    for year in years {
        for month in 1..=12 {
            for day in [1, 15, 28, 29, 30, 31] {
                for (hour, minute, second, milli) in times {
                    if let Some(v) =
                        DateValue::checked_build(year, month, day, hour, minute, second, milli)
                    {
                        out.push(v);
                    }
                }
            }
        }
    }
    out
}

fn chrono_of(v: &DateValue) -> chrono::DateTime<chrono::Utc> {
    chrono::NaiveDate::from_ymd_opt(v.year(), v.month(), v.day())
        .unwrap()
        .and_hms_milli_opt(v.hour(), v.minute(), v.second(), v.millisecond())
        .unwrap()
        .and_utc()
}

#[test]
fn formats_have_their_names() {
    assert_eq!("basic_date_time", BasicDateTime::name());
    assert_eq!("epoch_millis", EpochMillis::name());
    assert_eq!("strict_date_optional_time", ChronoFormat::name());
}

#[test]
fn only_the_compact_format_has_a_pattern() {
    assert_eq!(Some("yyyyMMdd'T'HHmmss.SSS'Z'"), BasicDateTime::pattern());
    assert_eq!(None, EpochMillis::pattern());
    assert_eq!(None, ChronoFormat::pattern());
}

#[test]
fn date_format_uses_name_if_supplied() {
    assert_eq!("test_date_1", format_name(Some("test_date_1"), "yyyy/MM/dd HH:mm:ss"));
}

#[test]
fn date_format_uses_format_if_name_not_supplied() {
    assert_eq!("yyyyMMdd", format_name(None, "yyyyMMdd"));
}

#[test]
fn compact_format_writes_every_field_in_its_place() {
    let v = DateValue::build(2015, 5, 13, 0, 0, 0, 0);
    assert_eq!("20150513T000000.000Z", BasicDateTime::format(&v));
    let v = DateValue::build(987, 12, 31, 23, 59, 58, 7);
    assert_eq!("09871231T235958.007Z", BasicDateTime::format(&v));
    let v = DateValue::build(0, 1, 1, 0, 0, 0, 0);
    assert_eq!("00000101T000000.000Z", BasicDateTime::format(&v));
    let v = DateValue::build(9999, 12, 31, 23, 59, 59, 999);
    assert_eq!("99991231T235959.999Z", BasicDateTime::format(&v));
}

#[test]
fn compact_format_reads_every_field_from_its_place() {
    let v = BasicDateTime::parse("20150513T000000.000Z").unwrap();
    assert_eq!((2015, 5, 13, 0, 0, 0, 0), fields(&v));
    let v = BasicDateTime::parse("09871231T235958.007Z").unwrap();
    assert_eq!((987, 12, 31, 23, 59, 58, 7), fields(&v));
    let v = BasicDateTime::parse("20160229T123456.789Z").unwrap();
    assert_eq!((2016, 2, 29, 12, 34, 56, 789), fields(&v));
}

#[test]
fn compact_format_rejects_what_does_not_match_in_full() {
    let rejected = [
        "",
        "20150513",
        "20150513T000000.000",
        "20150513T000000.000ZZ",
        " 20150513T000000.000Z",
        "20150513T000000.000Z ",
        "20150513t000000.000Z",
        "20150513T000000.000z",
        "20150513T000000,000Z",
        "20150513 000000.000Z",
        "2015-05-13T00:00:00Z",
        "2015051 T000000.000Z",
        "20150513T0000x0.000Z",
        "20150513T000000.00xZ",
        "+0150513T000000.000Z",
        "20150513T000000.000\u{17d}",
        "２0150513T000000.000Z",
        "1431475200000",
    ];
    for text in rejected {
        assert!(BasicDateTime::parse(text).is_err(), "{}", text);
    }
}

#[test]
fn compact_format_rejects_fields_out_of_range() {
    let rejected = [
        "20150013T000000.000Z",
        "20151313T000000.000Z",
        "20150500T000000.000Z",
        "20150532T000000.000Z",
        "20150431T000000.000Z",
        "20150229T000000.000Z",
        "19000229T000000.000Z",
        "20150513T240000.000Z",
        "20150513T006000.000Z",
        "20150513T000060.000Z",
    ];
    for text in rejected {
        assert!(BasicDateTime::parse(text).is_err(), "{}", text);
    }
    assert!(BasicDateTime::parse("20000229T000000.000Z").is_ok());
    assert!(BasicDateTime::parse("20150430T235959.999Z").is_ok());
}

#[test]
fn epoch_format_writes_the_milliseconds_from_the_epoch() {
    let v = DateValue::build(2015, 5, 13, 0, 0, 0, 0);
    assert_eq!("1431475200000", EpochMillis::format(&v));
    let v = DateValue::build(1970, 1, 1, 0, 0, 0, 0);
    assert_eq!("0", EpochMillis::format(&v));
    let v = DateValue::build(1970, 1, 1, 0, 0, 1, 444);
    assert_eq!("1444", EpochMillis::format(&v));
    let v = DateValue::build(2001, 9, 9, 1, 46, 40, 555);
    assert_eq!("1000000000555", EpochMillis::format(&v));
    let v = DateValue::build(1969, 12, 31, 23, 59, 59, 999);
    assert_eq!("-1", EpochMillis::format(&v));
    let v = DateValue::build(0, 1, 1, 0, 0, 0, 0);
    assert_eq!("-62167219200000", EpochMillis::format(&v));
    let v = DateValue::build(9999, 12, 31, 23, 59, 59, 999);
    assert_eq!("253402300799999", EpochMillis::format(&v));
}

#[test]
fn epoch_format_reads_the_milliseconds_from_the_epoch() {
    let v = EpochMillis::parse("1431475200000").unwrap();
    assert_eq!((2015, 5, 13, 0, 0, 0, 0), fields(&v));
    let v = EpochMillis::parse("0").unwrap();
    assert_eq!((1970, 1, 1, 0, 0, 0, 0), fields(&v));
    let v = EpochMillis::parse("-1").unwrap();
    assert_eq!((1969, 12, 31, 23, 59, 59, 999), fields(&v));
    let v = EpochMillis::parse("947638923004").unwrap();
    assert_eq!((2000, 1, 12, 1, 2, 3, 4), fields(&v));
    let v = EpochMillis::parse("-62167219200000").unwrap();
    assert_eq!((0, 1, 1, 0, 0, 0, 0), fields(&v));
    let v = EpochMillis::parse("253402300799999").unwrap();
    assert_eq!((9999, 12, 31, 23, 59, 59, 999), fields(&v));
}

#[test]
fn epoch_format_rejects_what_is_outside_the_calendar() {
    assert!(EpochMillis::parse("253402300800000").is_err());
    assert!(EpochMillis::parse("-62167219200001").is_err());
    assert!(EpochMillis::parse("1000000000000000").is_err());
    assert!(EpochMillis::parse("9223372036854775807").is_err());
    assert!(EpochMillis::parse("-9223372036854775808").is_err());
    assert!(EpochMillis::parse("99999999999999999999999999999999").is_err());
}

#[test]
fn epoch_format_rejects_what_it_would_not_write() {
    let rejected = [
        "", "-", "+1", "01", "00", "-0", "-01", "1 ", " 1", "1.0", "1e3", "0x10", "--1", "1-",
        "١٢٣", "12a", "\u{661}",
    ];
    for text in rejected {
        assert!(EpochMillis::parse(text).is_err(), "{}", text);
    }
}

#[test]
fn strict_format_writes_milliseconds_only_where_there_are_any() {
    let v = DateValue::build(2015, 5, 13, 0, 0, 0, 0);
    assert_eq!("2015-05-13T00:00:00Z", ChronoFormat::format(&v));
    let v = DateValue::build(2015, 5, 13, 1, 2, 3, 4);
    assert_eq!("2015-05-13T01:02:03.004Z", ChronoFormat::format(&v));
    let v = DateValue::build(2015, 5, 13, 1, 2, 3, 120);
    assert_eq!("2015-05-13T01:02:03.120Z", ChronoFormat::format(&v));
    let v = DateValue::build(7, 1, 1, 0, 0, 0, 0);
    assert_eq!("0007-01-01T00:00:00Z", ChronoFormat::format(&v));
    let v = DateValue::build(9999, 12, 31, 23, 59, 59, 999);
    assert_eq!("9999-12-31T23:59:59.999Z", ChronoFormat::format(&v));
}

#[test]
fn strict_format_reads_what_it_writes() {
    let v = ChronoFormat::parse("2015-05-13T00:00:00Z").unwrap();
    assert_eq!((2015, 5, 13, 0, 0, 0, 0), fields(&v));
    let v = ChronoFormat::parse("2015-05-13T01:02:03.004Z").unwrap();
    assert_eq!((2015, 5, 13, 1, 2, 3, 4), fields(&v));
    let v = ChronoFormat::parse("0000-01-01T00:00:00Z").unwrap();
    assert_eq!((0, 1, 1, 0, 0, 0, 0), fields(&v));
    let v = ChronoFormat::parse("9999-12-31T23:59:59.999Z").unwrap();
    assert_eq!((9999, 12, 31, 23, 59, 59, 999), fields(&v));
}

#[test]
fn strict_format_rejects_what_it_would_not_write() {
    let rejected = [
        "",
        "2015-05-13",
        "2015-05-13T00:00:00",
        "2015-05-13T00:00:00+00:00",
        "2015-05-13T00:00:00-00:00",
        "2015-05-13T02:00:00+02:00",
        "2015-05-13 00:00:00Z",
        "2015-05-13t00:00:00Z",
        "2015-05-13T00:00:00z",
        "2015-05-13T00:00:00.000Z",
        "2015-05-13T00:00:00.1Z",
        "2015-05-13T00:00:00.12Z",
        "2015-05-13T00:00:00.1234Z",
        "2015-05-13T00:00:00.123456Z",
        "2015-05-13T00:00:00.123456789Z",
        "2015-05-13T23:59:60Z",
        "2015-02-29T00:00:00Z",
        "2015-13-01T00:00:00Z",
        "2015-05-13T24:00:00Z",
        "15-05-13T00:00:00Z",
        "+2015-05-13T00:00:00Z",
        "2015-05-13T00:00:00Z ",
        " 2015-05-13T00:00:00Z",
        "2015-5-13T00:00:00Z",
        "20150513T000000.000Z",
        "2015-05-13T00:00:00 UTC",
    ];
    for text in rejected {
        assert!(ChronoFormat::parse(text).is_err(), "{}", text);
    }
}

#[test]
fn every_format_reads_what_it_writes() {
    for v in sample_values() {
        assert_eq!(v, BasicDateTime::parse(&BasicDateTime::format(&v)).unwrap());
        assert_eq!(v, EpochMillis::parse(&EpochMillis::format(&v)).unwrap());
        assert_eq!(v, ChronoFormat::parse(&ChronoFormat::format(&v)).unwrap());
    }
}

#[test]
fn every_format_writes_what_it_reads() {
    let basic = ["20150513T000000.000Z", "00000101T000000.000Z", "99991231T235959.999Z"];
    for text in basic {
        assert_eq!(text, BasicDateTime::format(&BasicDateTime::parse(text).unwrap()));
    }
    let epoch = ["0", "-1", "1", "1431475200000", "-62167219200000", "253402300799999"];
    for text in epoch {
        assert_eq!(text, EpochMillis::format(&EpochMillis::parse(text).unwrap()));
    }
    let strict = ["2015-05-13T00:00:00Z", "2015-05-13T00:00:00.001Z", "0000-01-01T00:00:00Z"];
    for text in strict {
        assert_eq!(text, ChronoFormat::format(&ChronoFormat::parse(text).unwrap()));
    }
}

#[test]
fn epoch_milliseconds_agree_with_chrono() {
    for v in sample_values() {
        assert_eq!(chrono_of(&v).timestamp_millis(), v.epoch_millis());
    }
}

#[test]
fn instants_from_epoch_milliseconds_agree_with_chrono() {
    let step: i64 = 1_234_567_891;
    let mut ms = MIN_EPOCH_MILLIS;
    while ms <= MAX_EPOCH_MILLIS {
        let v = DateValue::from_epoch_millis(ms).unwrap();
        let t = chrono::DateTime::from_timestamp_millis(ms).unwrap();
        assert_eq!(
            (
                t.year(),
                t.month(),
                t.day(),
                t.hour(),
                t.minute(),
                t.second(),
                t.timestamp_subsec_millis()
            ),
            fields(&v)
        );
        assert_eq!(ms, v.epoch_millis());
        ms += step;
    }
}

#[test]
fn every_day_of_the_calendar_agrees_with_chrono() {
    let day: i64 = 86_400_000;
    let mut start = MIN_EPOCH_MILLIS;
    let mut days = 0;
    while start <= MAX_EPOCH_MILLIS {
        let last = start + day - 1;
        let first = DateValue::from_epoch_millis(start).unwrap();
        let end = DateValue::from_epoch_millis(last).unwrap();
        assert_eq!(start, first.epoch_millis());
        assert_eq!(last, end.epoch_millis());
        assert_eq!((0, 0, 0, 0), (first.hour(), first.minute(), first.second(), first.millisecond()));
        assert_eq!((23, 59, 59, 999), (end.hour(), end.minute(), end.second(), end.millisecond()));
        assert_eq!((first.year(), first.month(), first.day()), (end.year(), end.month(), end.day()));
        start += day;
        days += 1;
    }
    assert_eq!(3_652_425, days);
}

#[test]
fn strict_text_agrees_with_chrono() {
    for v in sample_values() {
        let written = chrono_of(&v).to_rfc3339_opts(chrono::SecondsFormat::AutoSi, true);
        assert_eq!(written, ChronoFormat::format(&v));
        let read = chrono::DateTime::parse_from_rfc3339(&written).unwrap().to_utc();
        assert_eq!(read, chrono_of(&ChronoFormat::parse(&written).unwrap()));
    }
}

#[test]
fn a_bound_value_is_written_and_read_in_its_format() {
    let v = DateValue::build(2015, 5, 13, 0, 0, 0, 0);
    let basic = FormattableDateValue::<BasicDateTime>::new(v);
    assert_eq!("20150513T000000.000Z", basic.format());
    let epoch = FormattableDateValue::<EpochMillis>::from(basic.into_value());
    assert_eq!("1431475200000", epoch.format());
    let read = FormattableDateValue::<EpochMillis>::parse("1431475200000").unwrap();
    assert_eq!(v, *read.value());
    assert_eq!(v, DateValue::from(read));
    assert!(FormattableDateValue::<EpochMillis>::parse("20150513T000000.000Z").is_err());
}

#[test]
fn a_parse_error_names_the_text_and_the_pattern() {
    let err = BasicDateTime::parse("13/05/2015").unwrap_err();
    assert_eq!("13/05/2015", err.text);
    assert_eq!(Some("yyyyMMdd'T'HHmmss.SSS'Z'".to_owned()), err.pattern);
    assert_eq!(
        "the date `13/05/2015` does not match the pattern `yyyyMMdd'T'HHmmss.SSS'Z'`",
        err.message()
    );
    let err = EpochMillis::parse("soon").unwrap_err();
    assert_eq!("soon", err.text);
    assert_eq!(None, err.pattern);
    assert_eq!("the date `soon` does not match the format", err.message());
    let err = ChronoFormat::parse("2015-05-13").unwrap_err();
    assert_eq!(ParseError::new("2015-05-13", None), err);
}
