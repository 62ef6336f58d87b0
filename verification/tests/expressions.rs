use elastic_types::expr::{DateExprOp, DateExprOpUnit};
use elastic_types::prelude::{
    BasicDateTime, ChronoFormat, Date, DateExpr, DateValue, DefaultDateMapping, EpochMillis,
};

#[test]
fn operations_are_written_in_call_order() {
    let one = DateExpr::<BasicDateTime>::now().add_days(2).round_week();
    let other = DateExpr::<BasicDateTime>::now().round_week().add_days(2);
    assert_eq!("now+2d/w", one.render());
    assert_eq!("now/w+2d", other.render());
}

#[test]
fn operations_are_never_merged_or_dropped() {
    let expr = DateExpr::<BasicDateTime>::now()
        .add_days(1)
        .add_days(1)
        .sub_days(1)
        .round_day()
        .round_day()
        .add_days(0);
    assert_eq!("now+1d+1d-1d/d/d+0d", expr.render());
}

#[test]
fn month_and_minute_differ_by_case() {
    let expr = DateExpr::<BasicDateTime>::now()
        .add_months(1)
        .add_minutes(1)
        .sub_months(2)
        .sub_minutes(2)
        .round_month()
        .round_minute();
    assert_eq!("now+1M+1m-2M-2m/M/m", expr.render());
}

#[test]
fn counts_are_written_in_decimal() {
    let expr = DateExpr::<BasicDateTime>::now()
        .add_seconds(0)
        .add_seconds(9)
        .add_seconds(10)
        .add_seconds(1234567890)
        .sub_hours(usize::MAX);
    assert_eq!(format!("now+0s+9s+10s+1234567890s-{}h", usize::MAX), expr.render());
}

#[test]
fn each_step_adds_its_text_after_what_was_there() {
    let mut expr = DateExpr::<BasicDateTime>::value(DateValue::build(2015, 5, 13, 0, 0, 0, 0));
    let mut expected = String::from("20150513T000000.000Z||");
    assert_eq!(expected, expr.render());
    let steps = [
        (DateExprOp::Add(3, DateExprOpUnit::Year), "+3y"),
        (DateExprOp::Round(DateExprOpUnit::Hour), "/h"),
        (DateExprOp::Sub(40, DateExprOpUnit::Week), "-40w"),
        (DateExprOp::Add(3, DateExprOpUnit::Year), "+3y"),
        (DateExprOp::Round(DateExprOpUnit::Second), "/s"),
    ];
    for (op, text) in steps {
        expr = expr.with_op(op);
        expected.push_str(text);
        assert_eq!(expected, expr.render());
    }
}

#[test]
fn an_anchor_is_written_in_the_format_of_the_expression() {
    let value = DateValue::build(2015, 3, 1, 14, 55, 0, 0);
    assert_eq!("20150301T145500.000Z||+2d", DateExpr::<BasicDateTime>::value(value).add_days(2).render());
    assert_eq!("1425221700000||+2d", DateExpr::<EpochMillis>::value(value).add_days(2).render());
    assert_eq!("2015-03-01T14:55:00Z||+2d", DateExpr::<ChronoFormat>::value(value).add_days(2).render());
}

#[test]
fn an_anchor_is_made_of_a_date_of_the_same_format() {
    let date: Date<DefaultDateMapping<EpochMillis>> = Date::build(2015, 5, 13, 0, 0, 0, 0);
    let expr = DateExpr::value(date.clone());
    assert_eq!("1431475200000||", expr.render());
    let other = DateExpr::<BasicDateTime>::value(DateValue::from(date));
    assert_eq!("20150513T000000.000Z||", other.render());
}

#[test]
fn a_cloned_expression_is_written_the_same() {
    let expr = DateExpr::<BasicDateTime>::value(DateValue::build(2015, 5, 13, 0, 0, 0, 0))
        .sub_months(6)
        .round_year();
    let copy = expr.clone();
    assert_eq!("20150513T000000.000Z||-6M/y", copy.render());
    assert_eq!(expr.render(), copy.add_days(1).sub_days(1).render()[..27].to_owned());
    assert_eq!("now", DateExpr::<BasicDateTime>::now().clone().render());
}

#[test]
fn units_have_their_letters() {
    assert_eq!('y', DateExprOpUnit::Year.letter());
    assert_eq!('M', DateExprOpUnit::Month.letter());
    assert_eq!('w', DateExprOpUnit::Week.letter());
    assert_eq!('d', DateExprOpUnit::Day.letter());
    assert_eq!('h', DateExprOpUnit::Hour.letter());
    assert_eq!('m', DateExprOpUnit::Minute.letter());
    assert_eq!('s', DateExprOpUnit::Second.letter());
}

#[test]
fn an_operation_is_written_after_what_a_text_holds() {
    let mut out = String::from("now");
    DateExprOp::Add(12, DateExprOpUnit::Hour).write(&mut out);
    DateExprOp::Sub(5, DateExprOpUnit::Minute).write(&mut out);
    DateExprOp::Round(DateExprOpUnit::Day).write(&mut out);
    assert_eq!("now+12h-5m/d", out);
}

#[test]
fn expressions_are_equal_where_anchor_and_operations_are() {
    let value = DateValue::build(2015, 5, 13, 0, 0, 0, 0);
    let one = DateExpr::<BasicDateTime>::value(value).add_days(2).round_week();
    let same = DateExpr::<BasicDateTime>::value(value).add_days(2).round_week();
    let swapped = DateExpr::<BasicDateTime>::value(value).round_week().add_days(2);
    let shorter = DateExpr::<BasicDateTime>::value(value).add_days(2);
    let later = DateExpr::<BasicDateTime>::value(DateValue::build(2015, 5, 14, 0, 0, 0, 0))
        .add_days(2)
        .round_week();
    let from_now = DateExpr::<BasicDateTime>::now().add_days(2).round_week();
    assert!(one == same);
    assert!(one == one.clone());
    assert!(one != swapped);
    assert!(one != shorter);
    assert!(one != later);
    assert!(one != from_now);
    assert!(from_now == DateExpr::<BasicDateTime>::now().add_days(2).round_week());
    assert!(DateExpr::<BasicDateTime>::now() == DateExpr::<BasicDateTime>::now());
}

#[test]
fn an_anchor_is_made_of_a_bound_value() {
    let bound = elastic_types::prelude::FormattableDateValue::<EpochMillis>::new(
        DateValue::build(2015, 5, 13, 0, 0, 0, 0),
    );
    let expr = DateExpr::from_bound(bound.clone()).sub_hours(1);
    assert_eq!("1431475200000||-1h", expr.render());
    assert!(expr == DateExpr::value(bound).sub_hours(1));
}
