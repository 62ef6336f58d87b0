use chrono::{Datelike, TimeZone, Timelike};
use elastic_types::prelude::{
    BasicDateTime, ChronoFormat, Date, DateExpr, DateInput, DateValue, DefaultDateFormat,
    DefaultDateMapping, EpochMillis,
};

fn input_of(token: serde_json::Value) -> DateInput {
    match token {
        serde_json::Value::String(text) => DateInput::Text(text),
        serde_json::Value::Number(n) => match (n.as_i64(), n.as_u64()) {
            (Some(i), _) => DateInput::Integer(i),
            (None, Some(u)) => DateInput::Unsigned(u),
            (None, None) => DateInput::Other,
        },
        _ => DateInput::Other,
    }
}

fn value_of_chrono(date: chrono::DateTime<chrono::Utc>) -> DateValue {
    DateValue::build(
        date.year(),
        date.month(),
        date.day(),
        date.hour(),
        date.minute(),
        date.second(),
        date.timestamp_subsec_millis(),
    )
}

#[test]
fn can_change_date_mapping() {
    fn takes_epoch_millis(_: Date<DefaultDateMapping<EpochMillis>>) -> bool {
        true
    }

    let date: Date<DefaultDateMapping<BasicDateTime>> = Date::now().unwrap();

    assert!(takes_epoch_millis(Date::remap(date)));
}

#[test]
fn can_build_date_from_value() {
    let date: Date<DefaultDateMapping> = Date::new(DateValue::build(2015, 05, 13, 0, 0, 0, 0));

    assert_eq!(
        (2015, 5, 13, 0, 0, 0),
        (date.year(), date.month(), date.day(), date.hour(), date.minute(), date.second())
    );
}

#[test]
fn can_build_date_from_chrono() {
    #[allow(deprecated)]
    let date = chrono::Utc.datetime_from_str("13/05/2015 00:00:00", "%d/%m/%Y %H:%M:%S").unwrap();

    let date: Date<DefaultDateMapping<ChronoFormat>> = Date::new(value_of_chrono(date));

    assert_eq!(
        (2015, 5, 13, 0, 0, 0),
        (date.year(), date.month(), date.day(), date.hour(), date.minute(), date.second())
    );
}

#[test]
fn can_build_date_from_prim() {
    let date: Date<DefaultDateMapping> = Date::build(2015, 5, 13, 0, 0, 0, 0);

    assert_eq!(
        (2015, 5, 13, 0, 0, 0),
        (date.year(), date.month(), date.day(), date.hour(), date.minute(), date.second())
    );
}

#[test]
fn serialise_elastic_date() {
    let date =
        Date::<DefaultDateMapping<BasicDateTime>>::new(DateValue::build(2015, 05, 13, 0, 0, 0, 0));

    let ser = serde_json::to_string(&date.serialize()).unwrap();

    assert_eq!(r#""20150513T000000.000Z""#, ser);
}

#[test]
fn deserialise_elastic_date() {
    let token = serde_json::from_str(r#""20150513T000000.000Z""#).unwrap();
    let date: Date<DefaultDateMapping<BasicDateTime>> =
        Date::deserialize(&input_of(token)).unwrap();

    assert_eq!((2015, 5, 13), (date.year(), date.month(), date.day()));
}

#[test]
fn serialise_date_expr_now() {
    let expr = DateExpr::<DefaultDateFormat>::now();

    let ser = serde_json::to_string(&expr.render()).unwrap();

    assert_eq!(r#""now""#, ser);
}

#[test]
fn serialise_date_expr_chrono() {
    #[allow(deprecated)]
    let date = chrono::Utc.datetime_from_str("13/05/2015 00:00:00", "%d/%m/%Y %H:%M:%S").unwrap();

    let expr = DateExpr::<ChronoFormat>::value(value_of_chrono(date));

    let ser = serde_json::to_string(&expr.render()).unwrap();

    assert_eq!(r#""2015-05-13T00:00:00Z||""#, ser);
}

#[test]
fn serialise_date_expr_date() {
    let expr = DateExpr::value(Date::<DefaultDateMapping<BasicDateTime>>::build(
        2015, 5, 13, 0, 0, 0, 0,
    ));

    let ser = serde_json::to_string(&expr.render()).unwrap();

    assert_eq!(r#""20150513T000000.000Z||""#, ser);
}

#[test]
fn serialise_date_expr_value_with_ops() {
    let expr = DateExpr::value(Date::<DefaultDateMapping<BasicDateTime>>::build(
        2015, 5, 13, 0, 0, 0, 0,
    ))
    .add_days(2)
    .round_week();

    let ser = serde_json::to_string(&expr.render()).unwrap();

    assert_eq!(r#""20150513T000000.000Z||+2d/w""#, ser);
}

#[test]
fn serialise_date_expr_add() {
    let expr = DateExpr::<DefaultDateFormat>::now()
        .add_years(1)
        .add_months(2)
        .add_weeks(3)
        .add_days(4)
        .add_hours(5)
        .add_minutes(6)
        .add_seconds(7);

    let ser = serde_json::to_string(&expr.render()).unwrap();

    assert_eq!(r#""now+1y+2M+3w+4d+5h+6m+7s""#, ser);
}

#[test]
fn serialise_date_expr_sub() {
    let expr = DateExpr::<DefaultDateFormat>::now()
        .sub_years(1)
        .sub_months(2)
        .sub_weeks(3)
        .sub_days(4)
        .sub_hours(5)
        .sub_minutes(6)
        .sub_seconds(7);

    let ser = serde_json::to_string(&expr.render()).unwrap();

    assert_eq!(r#""now-1y-2M-3w-4d-5h-6m-7s""#, ser);
}

#[test]
fn serialise_date_expr_round() {
    let expr = DateExpr::<DefaultDateFormat>::now()
        .round_year()
        .round_month()
        .round_week()
        .round_day()
        .round_hour()
        .round_minute()
        .round_second();

    let ser = serde_json::to_string(&expr.render()).unwrap();

    assert_eq!(r#""now/y/M/w/d/h/m/s""#, ser);
}

#[test]
fn fields_out_of_range_are_rejected() {
    assert!(DateValue::checked_build(2015, 5, 13, 0, 0, 0, 0).is_some());
    assert!(DateValue::checked_build(-1, 5, 13, 0, 0, 0, 0).is_none());
    assert!(DateValue::checked_build(10000, 5, 13, 0, 0, 0, 0).is_none());
    assert!(DateValue::checked_build(2015, 0, 13, 0, 0, 0, 0).is_none());
    assert!(DateValue::checked_build(2015, 13, 13, 0, 0, 0, 0).is_none());
    assert!(DateValue::checked_build(2015, 5, 0, 0, 0, 0, 0).is_none());
    assert!(DateValue::checked_build(2015, 5, 32, 0, 0, 0, 0).is_none());
    assert!(DateValue::checked_build(2015, 4, 31, 0, 0, 0, 0).is_none());
    assert!(DateValue::checked_build(2015, 5, 13, 24, 0, 0, 0).is_none());
    assert!(DateValue::checked_build(2015, 5, 13, 0, 60, 0, 0).is_none());
    assert!(DateValue::checked_build(2015, 5, 13, 0, 0, 60, 0).is_none());
    assert!(DateValue::checked_build(2015, 5, 13, 0, 0, 0, 1000).is_none());
    assert!(DateValue::checked_build(2015, 5, 13, 23, 59, 59, 1999).is_none());
}

#[test]
fn february_has_a_leap_day_in_leap_years_only() {
    assert!(DateValue::checked_build(2016, 2, 29, 0, 0, 0, 0).is_some());
    assert!(DateValue::checked_build(2000, 2, 29, 0, 0, 0, 0).is_some());
    assert!(DateValue::checked_build(0, 2, 29, 0, 0, 0, 0).is_some());
    assert!(DateValue::checked_build(2015, 2, 29, 0, 0, 0, 0).is_none());
    assert!(DateValue::checked_build(1900, 2, 29, 0, 0, 0, 0).is_none());
    assert!(DateValue::checked_build(2100, 2, 29, 0, 0, 0, 0).is_none());
    assert!(DateValue::checked_build(2016, 2, 30, 0, 0, 0, 0).is_none());
}

#[test]
fn checked_build_agrees_with_chrono_on_every_day() {
    for year in [0, 1, 4, 100, 400, 1900, 2000, 2015, 2016, 9999] {
        for month in 0..=13 {
            for day in 0..=32 {
                let ours = DateValue::checked_build(year, month, day, 0, 0, 0, 0).is_some();
                let theirs = chrono::NaiveDate::from_ymd_opt(year, month, day).is_some();
                assert_eq!(theirs, ours, "{}-{}-{}", year, month, day);
            }
        }
    }
}

#[test]
fn a_date_shows_every_field() {
    let date: Date<DefaultDateMapping<BasicDateTime>> = Date::build(2010, 4, 30, 13, 56, 59, 372);
    assert_eq!(2010, date.year());
    assert_eq!(4, date.month());
    assert_eq!(30, date.day());
    assert_eq!(13, date.hour());
    assert_eq!(56, date.minute());
    assert_eq!(59, date.second());
    assert_eq!(372, date.millisecond());
    assert_eq!(372_000_000, date.nanosecond());
    assert_eq!(372, date.nanosecond() / 1000000);
    assert_eq!(DateValue::build(2010, 4, 30, 13, 56, 59, 372), *date.value());
}

#[test]
fn remap_keeps_every_field() {
    let date: Date<DefaultDateMapping<BasicDateTime>> = Date::build(2010, 4, 30, 13, 56, 59, 372);
    let before = (
        date.year(),
        date.month(),
        date.day(),
        date.hour(),
        date.minute(),
        date.second(),
        date.millisecond(),
    );
    let epoch: Date<DefaultDateMapping<EpochMillis>> = Date::remap(date);
    assert_eq!(
        before,
        (
            epoch.year(),
            epoch.month(),
            epoch.day(),
            epoch.hour(),
            epoch.minute(),
            epoch.second(),
            epoch.millisecond()
        )
    );
    assert_eq!("1272635819372", epoch.serialize());
    let strict: Date<DefaultDateMapping<ChronoFormat>> = Date::remap(epoch);
    assert_eq!("2010-04-30T13:56:59.372Z", strict.serialize());
    let back: Date<DefaultDateMapping<BasicDateTime>> = Date::remap(strict);
    assert_eq!("20100430T135659.372Z", back.serialize());
    assert_eq!(Date::<DefaultDateMapping<BasicDateTime>>::build(2010, 4, 30, 13, 56, 59, 372), back);
}

#[test]
fn a_date_is_compared_with_a_value_whatever_its_format() {
    let value = DateValue::build(2015, 5, 13, 0, 0, 0, 0);
    let later = DateValue::build(2015, 5, 13, 0, 0, 0, 1);
    let basic: Date<DefaultDateMapping<BasicDateTime>> = Date::new(value);
    let epoch: Date<DefaultDateMapping<EpochMillis>> = Date::new(value);
    assert!(basic == value);
    assert!(value == epoch);
    assert!(basic != later);
    assert!(later != epoch);
    assert!(basic.same_instant(&value));
    assert!(epoch.same_instant(&value));
    assert!(!basic.same_instant(&later));
    assert!(basic.same_instant(epoch.value()));
    assert!(basic.precedes(&later));
    assert!(!basic.precedes(&value));
    assert!(!Date::<DefaultDateMapping<EpochMillis>>::new(later).precedes(&value));
}

#[test]
fn values_are_ordered_as_their_instants_are() {
    let values = [
        DateValue::build(1969, 12, 31, 23, 59, 59, 999),
        DateValue::build(1970, 1, 1, 0, 0, 0, 0),
        DateValue::build(2015, 2, 28, 23, 59, 59, 999),
        DateValue::build(2015, 3, 1, 0, 0, 0, 0),
        DateValue::build(2015, 12, 31, 23, 59, 59, 999),
        DateValue::build(2016, 1, 1, 0, 0, 0, 0),
    ];
    for (i, a) in values.iter().enumerate() {
        for (j, b) in values.iter().enumerate() {
            assert_eq!(i < j, a.precedes(b));
            assert_eq!(i == j, a.same_instant(b));
            assert_eq!(i < j, a.epoch_millis() < b.epoch_millis());
            assert_eq!(i < j, a < b);
            assert_eq!(Some(a.cmp(b)), a.partial_cmp(b));
        }
    }
}

#[test]
fn now_is_the_instant_of_the_clock() {
    let before = chrono::Utc::now().timestamp_millis();
    let date: Date<DefaultDateMapping<EpochMillis>> = Date::now().unwrap();
    let after = chrono::Utc::now().timestamp_millis();
    let shown = date.value().epoch_millis();
    assert!(before <= shown && shown <= after);
    assert!(DateValue::now().is_some());
}

#[test]
fn a_value_is_made_from_epoch_milliseconds_within_the_calendar() {
    assert_eq!(
        Some(DateValue::build(2015, 5, 13, 0, 0, 0, 0)),
        DateValue::from_epoch_millis(1431475200000)
    );
    assert_eq!(None, DateValue::from_epoch_millis(253402300800000));
    assert_eq!(None, DateValue::from_epoch_millis(-62167219200001));
    assert_eq!(None, DateValue::from_epoch_millis(i64::MAX));
    assert_eq!(None, DateValue::from_epoch_millis(i64::MIN));
}

#[test]
fn a_date_converts_to_and_from_its_value() {
    let value = DateValue::build(2015, 5, 13, 0, 0, 0, 0);
    let date: Date<DefaultDateMapping<BasicDateTime>> = Date::from(value);
    assert_eq!(value, DateValue::from(date.clone()));
    let same: Date<DefaultDateMapping<BasicDateTime>> = Date::new(date.clone());
    assert_eq!(date, same);
    let bound = elastic_types::prelude::FormattableDateValue::<BasicDateTime>::from(date);
    assert_eq!("20150513T000000.000Z", bound.format());
    let again: Date<DefaultDateMapping<BasicDateTime>> = Date::from(bound);
    assert_eq!(same, again);
}

#[test]
fn deserialise_date_from_integer() {
    let token = serde_json::from_str("1431475200000").unwrap();
    let date: Date<DefaultDateMapping<EpochMillis>> = Date::deserialize(&input_of(token)).unwrap();
    assert_eq!((2015, 5, 13), (date.year(), date.month(), date.day()));

    let token = serde_json::from_str("-1").unwrap();
    let date: Date<DefaultDateMapping<EpochMillis>> = Date::deserialize(&input_of(token)).unwrap();
    assert_eq!((1969, 12, 31, 999), (date.year(), date.month(), date.day(), date.millisecond()));

    let date: Date<DefaultDateMapping<EpochMillis>> =
        Date::deserialize(&DateInput::Unsigned(1431475200000)).unwrap();
    assert_eq!((2015, 5, 13), (date.year(), date.month(), date.day()));
}

#[test]
fn deserialise_date_reads_an_integer_as_its_decimal_text() {
    let err = Date::<DefaultDateMapping<BasicDateTime>>::deserialize(&DateInput::Integer(20150513))
        .unwrap_err();
    match err {
        elastic_types::prelude::DateError::Parse(e) => {
            assert_eq!("20150513", e.text);
            assert_eq!(Some("yyyyMMdd'T'HHmmss.SSS'Z'".to_owned()), e.pattern);
        }
        other => panic!("{:?}", other),
    }
    let err = Date::<DefaultDateMapping<EpochMillis>>::deserialize(&DateInput::Unsigned(u64::MAX))
        .unwrap_err();
    match err {
        elastic_types::prelude::DateError::Parse(e) => {
            assert_eq!("18446744073709551615", e.text)
        }
        other => panic!("{:?}", other),
    }
    let err = Date::<DefaultDateMapping<EpochMillis>>::deserialize(&DateInput::Integer(i64::MIN))
        .unwrap_err();
    match err {
        elastic_types::prelude::DateError::Parse(e) => {
            assert_eq!("-9223372036854775808", e.text)
        }
        other => panic!("{:?}", other),
    }
}

#[test]
fn deserialise_date_rejects_a_malformed_text() {
    let token = serde_json::from_str(r#""2015-05-13""#).unwrap();
    let err =
        Date::<DefaultDateMapping<BasicDateTime>>::deserialize(&input_of(token)).unwrap_err();
    assert_eq!(
        elastic_types::prelude::DateError::Parse(elastic_types::prelude::ParseError::new(
            "2015-05-13",
            Some("yyyyMMdd'T'HHmmss.SSS'Z'")
        )),
        err
    );
}

#[test]
fn deserialise_date_rejects_any_other_shape() {
    for json in ["null", "true", "1.5", "[]", "{}", r#"["20150513T000000.000Z"]"#] {
        let token = serde_json::from_str(json).unwrap();
        let err =
            Date::<DefaultDateMapping<BasicDateTime>>::deserialize(&input_of(token)).unwrap_err();
        assert_eq!(elastic_types::prelude::DateError::UnsupportedInputShape, err, "{}", json);
    }
}

#[test]
fn parse_reads_a_date_in_the_format_of_its_mapping() {
    let date =
        elastic_types::date::parse::<DefaultDateMapping<BasicDateTime>>("20150513T000000.000Z")
            .unwrap();
    assert_eq!((2015, 5, 13), (date.year(), date.month(), date.day()));
    assert_eq!("20150513T000000.000Z", elastic_types::date::format(&date));
    assert!(elastic_types::date::parse::<DefaultDateMapping<EpochMillis>>(
        "20150513T000000.000Z"
    )
    .is_err());
}

#[test]
fn a_date_is_built_of_fields_that_name_an_instant_only() {
    let date = Date::<DefaultDateMapping<BasicDateTime>>::checked_build(2015, 5, 13, 1, 2, 3, 4)
        .unwrap();
    assert_eq!(Date::<DefaultDateMapping<BasicDateTime>>::build(2015, 5, 13, 1, 2, 3, 4), date);
    assert_eq!("20150513T010203.004Z", date.serialize());
    assert!(Date::<DefaultDateMapping<BasicDateTime>>::checked_build(2016, 2, 29, 0, 0, 0, 0)
        .is_some());
    assert!(Date::<DefaultDateMapping<BasicDateTime>>::checked_build(2015, 2, 29, 0, 0, 0, 0)
        .is_none());
    assert!(Date::<DefaultDateMapping<EpochMillis>>::checked_build(10000, 1, 1, 0, 0, 0, 0)
        .is_none());
    assert!(Date::<DefaultDateMapping<EpochMillis>>::checked_build(2015, 13, 1, 0, 0, 0, 0)
        .is_none());
    assert!(Date::<DefaultDateMapping<EpochMillis>>::checked_build(2015, 5, 13, 24, 0, 0, 0)
        .is_none());
    assert!(Date::<DefaultDateMapping<EpochMillis>>::checked_build(2015, 5, 13, 0, 0, 0, 1000)
        .is_none());
}
