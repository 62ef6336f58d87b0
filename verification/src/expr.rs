//! Date-math expressions: an anchor, which is `now` or a fixed date, and
//! the operations applied to it, written in the order they were added.

use crate::calendar::Instant;
use crate::digits::{all_digits, dec, is_digit, lemma_dec_is_plain, push_dec};
use crate::format::{DateFormat, FormattableDateValue};
use vstd::prelude::*;
use vstd::std_specs::cmp::PartialEqSpecImpl;
use vstd::std_specs::convert::IntoSpec;
use vstd::string::*;

verus! {

/// The unit of an operation.
#[derive(Clone, Copy, Debug, PartialEq, Eq, Structural)]
pub enum DateExprOpUnit {
    /// Years, written `y`.
    Year,
    /// Months, written `M`.
    Month,
    /// Weeks, written `w`.
    Week,
    /// Days, written `d`.
    Day,
    /// Hours, written `h`.
    Hour,
    /// Minutes, written `m`.
    Minute,
    /// Seconds, written `s`.
    Second,
}

/// One operation of a date-math expression.
#[derive(Clone, Copy, Debug, PartialEq, Eq, Structural)]
pub enum DateExprOp {
    /// Adds so many units.
    Add(usize, DateExprOpUnit),
    /// Subtracts so many units.
    Sub(usize, DateExprOpUnit),
    /// Rounds down to the unit.
    Round(DateExprOpUnit),
}

/// What a date-math expression starts from.
#[derive(Debug)]
pub enum DateExprAnchor<F: DateFormat> {
    /// The instant at which the expression is evaluated.
    Now,
    /// A fixed date in the format `F`.
    Value(FormattableDateValue<F>),
}

/// A date-math expression whose anchor, if it is a date, is written in the
/// format `F`. Two expressions are equal where they start from the same
/// anchor and hold the same operations in the same order.
#[derive(Debug)]
pub struct DateExpr<F: DateFormat> {
    anchor: DateExprAnchor<F>,
    ops: Vec<DateExprOp>,
}

/// The model of a date-math expression: the instant of its anchor, or `None`
/// for `now`, and its operations in the order they were added.
pub ghost struct ExprModel {
    pub anchor: Option<Instant>,
    pub ops: Seq<DateExprOp>,
}

/// The letter of a unit. Month and minute differ by case only.
pub open spec fn unit_letter(unit: DateExprOpUnit) -> char {
    match unit {
        DateExprOpUnit::Year => 'y',
        DateExprOpUnit::Month => 'M',
        DateExprOpUnit::Week => 'w',
        DateExprOpUnit::Day => 'd',
        DateExprOpUnit::Hour => 'h',
        DateExprOpUnit::Minute => 'm',
        DateExprOpUnit::Second => 's',
    }
}

/// The text of one operation: `+` or `-`, the count in decimal and the
/// unit's letter, or `/` and the unit's letter.
pub open spec fn op_text(op: DateExprOp) -> Seq<char> {
    match op {
        DateExprOp::Add(n, unit) => seq!['+'] + dec(n as nat) + seq![unit_letter(unit)],
        DateExprOp::Sub(n, unit) => seq!['-'] + dec(n as nat) + seq![unit_letter(unit)],
        DateExprOp::Round(unit) => seq!['/', unit_letter(unit)],
    }
}

/// The text of operations, one after the other with nothing in between.
pub open spec fn ops_text(ops: Seq<DateExprOp>) -> Seq<char>
    decreases ops.len(),
{
    if ops.len() == 0 {
        Seq::empty()
    } else {
        ops_text(ops.drop_last()) + op_text(ops.last())
    }
}

/// The text of an anchor in the format `F`: `now`, or the date and `||`.
pub open spec fn anchor_text<F: DateFormat>(anchor: Option<Instant>) -> Seq<char> {
    match anchor {
        None => "now"@,
        Some(v) => F::text_of(v) + "||"@,
    }
}

impl ExprModel {
    /// The text of the expression in the format `F`: the anchor, then the
    /// operations.
    pub open spec fn text<F: DateFormat>(self) -> Seq<char> {
        anchor_text::<F>(self.anchor) + ops_text(self.ops)
    }

    /// The expression with `op` added after its operations.
    pub open spec fn with_op(self, op: DateExprOp) -> ExprModel {
        ExprModel { anchor: self.anchor, ops: self.ops.push(op) }
    }
}

/// An operation that is added is written last, after all that was written
/// before it, and what was written before it stays as it was.
pub proof fn lemma_added_op_is_written_last<F: DateFormat>(e: ExprModel, op: DateExprOp)
    ensures
        e.with_op(op).text::<F>() == e.text::<F>() + op_text(op),
{
    assert(e.ops.push(op).drop_last() =~= e.ops);
}

/// The operations are written in the order they stand in: the text of two
/// runs of operations, one after the other, is the text of the first and
/// then the text of the second. No operation is moved, merged or left out.
pub proof fn lemma_ops_are_written_in_order(first: Seq<DateExprOp>, second: Seq<DateExprOp>)
    ensures
        ops_text(first + second) == ops_text(first) + ops_text(second),
    decreases second.len(),
{
    if second.len() == 0 {
        assert(first + second =~= first);
    } else {
        lemma_ops_are_written_in_order(first, second.drop_last());
        assert((first + second).drop_last() =~= first + second.drop_last());
    }
}

/// The sign that the text of an operation starts with.
pub open spec fn op_sign(op: DateExprOp) -> char {
    match op {
        DateExprOp::Add(_, _) => '+',
        DateExprOp::Sub(_, _) => '-',
        DateExprOp::Round(_) => '/',
    }
}

/// The digits in the text of an operation: its count, or none where it
/// rounds.
pub open spec fn op_digits(op: DateExprOp) -> Seq<char> {
    match op {
        DateExprOp::Add(n, _) => dec(n as nat),
        DateExprOp::Sub(n, _) => dec(n as nat),
        DateExprOp::Round(_) => Seq::empty(),
    }
}

/// The unit of an operation.
pub open spec fn op_unit(op: DateExprOp) -> DateExprOpUnit {
    match op {
        DateExprOp::Add(_, unit) => unit,
        DateExprOp::Sub(_, unit) => unit,
        DateExprOp::Round(unit) => unit,
    }
}

/// The text of an operation is its sign, its digits and the letter of its
/// unit; the digits are digits, and neither the sign nor the letter is one.
proof fn lemma_op_text_parts(op: DateExprOp)
    ensures
        op_text(op) == seq![op_sign(op)] + op_digits(op) + seq![unit_letter(op_unit(op))],
        all_digits(op_digits(op)),
        !is_digit(op_sign(op)),
        !is_digit(unit_letter(op_unit(op))),
        (op is Round) <==> op_digits(op).len() == 0,
{
    match op {
        DateExprOp::Add(n, _) => {
            lemma_dec_is_plain(n as nat);
        },
        DateExprOp::Sub(n, _) => {
            lemma_dec_is_plain(n as nat);
        },
        DateExprOp::Round(unit) => {
            assert(op_text(op) =~= seq![op_sign(op)] + op_digits(op) + seq![
                unit_letter(op_unit(op)),
            ]);
        },
    }
}

/// Two texts that end with an operation each and are the same text end with
/// the same operation, after the same text.
proof fn lemma_last_op_is_told(x: Seq<char>, p: DateExprOp, y: Seq<char>, q: DateExprOp)
    requires
        x + op_text(p) == y + op_text(q),
    ensures
        p == q,
        x == y,
{
    lemma_op_text_parts(p);
    lemma_op_text_parts(q);
    let t = x + op_text(p);
    let u = y + op_text(q);
    let dp = op_digits(p);
    let dq = op_digits(q);
    let a = dp.len() as int;
    let b = dq.len() as int;
    let len = t.len() as int;
    assert(len == x.len() + a + 2);
    assert(len == y.len() + b + 2);
    assert(t[len - 1] == unit_letter(op_unit(p)));
    assert(u[len - 1] == unit_letter(op_unit(q)));
    assert(op_unit(p) == op_unit(q));
    assert(t[len - 2 - a] == op_sign(p));
    assert(u[len - 2 - b] == op_sign(q));
    assert forall|i: int| 0 <= i < a implies t[len - 1 - a + i] == #[trigger] dp[i] by {}
    assert forall|i: int| 0 <= i < b implies u[len - 1 - b + i] == #[trigger] dq[i] by {}
    if a < b {
        assert(u[len - 2 - a] == dq[b - 1 - a]);
        assert(is_digit(dq[b - 1 - a]));
    }
    if b < a {
        assert(t[len - 2 - b] == dp[a - 1 - b]);
        assert(is_digit(dp[a - 1 - b]));
    }
    assert(a == b);
    assert(op_sign(p) == op_sign(q));
    assert(dp =~= dq) by {
        assert forall|i: int| 0 <= i < a implies dp[i] == dq[i] by {
            assert(t[len - 1 - a + i] == dp[i]);
            assert(u[len - 1 - b + i] == dq[i]);
        }
    }
    match (p, q) {
        (DateExprOp::Add(n, _), DateExprOp::Add(m, _)) => {
            lemma_dec_is_plain(n as nat);
            lemma_dec_is_plain(m as nat);
        },
        (DateExprOp::Sub(n, _), DateExprOp::Sub(m, _)) => {
            lemma_dec_is_plain(n as nat);
            lemma_dec_is_plain(m as nat);
        },
        _ => {},
    }
    assert(p == q);
    assert(x =~= y) by {
        assert forall|i: int| 0 <= i < x.len() implies x[i] == y[i] by {
            assert(t[i] == x[i]);
            assert(u[i] == y[i]);
        }
    }
}

/// The text of operations tells the operations: two runs of operations that
/// are written as the same text are the same operations in the same order.
/// So no two operations are ever written as one, and none is written out of
/// its place.
pub proof fn lemma_ops_text_tells_the_ops(a: Seq<DateExprOp>, b: Seq<DateExprOp>)
    requires
        ops_text(a) == ops_text(b),
    ensures
        a == b,
    decreases a.len(),
{
    if a.len() > 0 {
        lemma_op_text_parts(a.last());
    }
    if b.len() > 0 {
        lemma_op_text_parts(b.last());
    }
    if a.len() == 0 || b.len() == 0 {
        assert(a.len() == 0 && b.len() == 0);
        assert(a =~= b);
    } else {
        lemma_last_op_is_told(
            ops_text(a.drop_last()),
            a.last(),
            ops_text(b.drop_last()),
            b.last(),
        );
        lemma_ops_text_tells_the_ops(a.drop_last(), b.drop_last());
        assert(a =~= a.drop_last().push(a.last()));
        assert(b =~= b.drop_last().push(b.last()));
    }
}

/// Two expressions with the same anchor that are written as the same text
/// hold the same operations in the same order.
pub proof fn lemma_text_tells_the_ops<F: DateFormat>(e1: ExprModel, e2: ExprModel)
    requires
        e1.anchor == e2.anchor,
        e1.text::<F>() == e2.text::<F>(),
    ensures
        e1 == e2,
{
    let head = anchor_text::<F>(e1.anchor);
    let t1 = ops_text(e1.ops);
    let t2 = ops_text(e2.ops);
    assert(t1 =~= t2) by {
        assert((head + t1).len() == (head + t2).len());
        assert forall|i: int| 0 <= i < t1.len() implies t1[i] == t2[i] by {
            assert((head + t1)[head.len() + i] == t1[i]);
            assert((head + t2)[head.len() + i] == t2[i]);
        }
    }
    lemma_ops_text_tells_the_ops(e1.ops, e2.ops);
}

impl DateExprOpUnit {
    /// The letter of the unit.
    pub fn letter(&self) -> (r: char)
        ensures
            r == unit_letter(*self),
    {
        match self {
            DateExprOpUnit::Year => 'y',
            DateExprOpUnit::Month => 'M',
            DateExprOpUnit::Week => 'w',
            DateExprOpUnit::Day => 'd',
            DateExprOpUnit::Hour => 'h',
            DateExprOpUnit::Minute => 'm',
            DateExprOpUnit::Second => 's',
        }
    }
}

impl DateExprOp {
    /// Writes the operation after what `out` holds.
    pub fn write(&self, out: &mut String)
        ensures
            final(out)@ == old(out)@ + op_text(*self),
    {
        match self {
            DateExprOp::Add(n, unit) => {
                out.push('+');
                push_dec(out, *n as u64);
                out.push(unit.letter());
            },
            DateExprOp::Sub(n, unit) => {
                out.push('-');
                push_dec(out, *n as u64);
                out.push(unit.letter());
            },
            DateExprOp::Round(unit) => {
                out.push('/');
                out.push(unit.letter());
            },
        }
    }
}

impl<F: DateFormat> DateExprAnchor<F> {
    /// The instant of the anchor, or `None` for `now`.
    pub open spec fn instant(self) -> Option<Instant> {
        match self {
            DateExprAnchor::Now => None,
            DateExprAnchor::Value(v) => Some(v@),
        }
    }

    /// Writes the anchor after what `out` holds.
    pub fn write(&self, out: &mut String)
        ensures
            final(out)@ == old(out)@ + anchor_text::<F>(self.instant()),
    {
        match self {
            DateExprAnchor::Now => {
                out.append("now");
            },
            DateExprAnchor::Value(date) => {
                let text = date.format();
                out.append(text.as_str());
                out.append("||");
            },
        }
    }
}

impl<F: DateFormat> View for DateExpr<F> {
    type V = ExprModel;

    closed spec fn view(&self) -> ExprModel {
        ExprModel { anchor: self.anchor.instant(), ops: self.ops@ }
    }
}

impl<F: DateFormat> PartialEq for DateExprAnchor<F> {
    fn eq(&self, other: &DateExprAnchor<F>) -> (r: bool) {
        match (self, other) {
            (DateExprAnchor::Now, DateExprAnchor::Now) => true,
            (DateExprAnchor::Value(a), DateExprAnchor::Value(b)) => a == b,
            _ => false,
        }
    }
}

impl<F: DateFormat> Eq for DateExprAnchor<F> {

}

impl<F: DateFormat> PartialEqSpecImpl for DateExprAnchor<F> {
    open spec fn obeys_eq_spec() -> bool {
        true
    }

    open spec fn eq_spec(&self, other: &DateExprAnchor<F>) -> bool {
        self.instant() == other.instant()
    }
}

impl<F: DateFormat> PartialEq for DateExpr<F> {
    fn eq(&self, other: &DateExpr<F>) -> (r: bool) {
        let n = self.ops.len();
        if self.anchor != other.anchor || n != other.ops.len() {
            return false;
        }
        let mut i: usize = 0;
        while i < n
            invariant
                i <= n,
                n == self.ops.len(),
                n == other.ops.len(),
                self.anchor.instant() == other.anchor.instant(),
                self.ops@.subrange(0, i as int) == other.ops@.subrange(0, i as int),
            decreases n - i,
        {
            if self.ops[i] != other.ops[i] {
                return false;
            }
            assert(self.ops@.subrange(0, i + 1) =~= self.ops@.subrange(0, i as int).push(
                self.ops@[i as int],
            ));
            assert(other.ops@.subrange(0, i + 1) =~= other.ops@.subrange(0, i as int).push(
                other.ops@[i as int],
            ));
            i = i + 1;
        }
        assert(self.ops@ =~= self.ops@.subrange(0, n as int));
        assert(other.ops@ =~= other.ops@.subrange(0, n as int));
        true
    }
}

impl<F: DateFormat> Eq for DateExpr<F> {

}

impl<F: DateFormat> PartialEqSpecImpl for DateExpr<F> {
    open spec fn obeys_eq_spec() -> bool {
        true
    }

    open spec fn eq_spec(&self, other: &DateExpr<F>) -> bool {
        self@ == other@
    }
}

impl<F: DateFormat> Clone for DateExprAnchor<F> {
    fn clone(&self) -> (r: Self)
        ensures
            r.instant() == self.instant(),
    {
        match self {
            DateExprAnchor::Now => DateExprAnchor::Now,
            DateExprAnchor::Value(date) => DateExprAnchor::Value(date.clone()),
        }
    }
}

impl<F: DateFormat> Clone for DateExpr<F> {
    fn clone(&self) -> (r: Self)
        ensures
            r@ == self@,
    {
        let mut ops: Vec<DateExprOp> = Vec::new();
        let n = self.ops.len();
        let mut i: usize = 0;
        while i < n
            invariant
                i <= n,
                n == self.ops.len(),
                ops@ == self.ops@.subrange(0, i as int),
            decreases n - i,
        {
            ops.push(self.ops[i]);
            i = i + 1;
        }
        assert(ops@ =~= self.ops@);
        DateExpr { anchor: self.anchor.clone(), ops }
    }
}

impl<F: DateFormat> DateExpr<F> {
    /// The expression that starts from `now` and does nothing to it. It
    /// reads no clock: `now` is for the search engine to fill in.
    pub fn now() -> (r: Self)
        ensures
            r@ == (ExprModel { anchor: None, ops: Seq::empty() }),
    {
        DateExpr { anchor: DateExprAnchor::Now, ops: Vec::new() }
    }

    /// The expression that starts from `date` and does nothing to it. `date`
    /// is anything that converts into a value bound to the format `F`.
    ///
    /// The anchor is stated through the conversion's own statement. A bound
    /// value converts into itself by the identity conversion, which has no
    /// statement: a caller that is to prove what the anchor is passes a
    /// bound value to `from_bound`, or a bare value or a date here.
    pub fn value<D: Into<FormattableDateValue<F>>>(date: D) -> (r: Self)
        ensures
            r@.ops == Seq::<DateExprOp>::empty(),
            r@.anchor is Some,
            D::obeys_into_spec() ==> r@.anchor == Some(date.into_spec()@),
    {
        DateExpr::from_bound(date.into())
    }

    /// The expression that starts from the bound value `date` and does
    /// nothing to it.
    pub fn from_bound(date: FormattableDateValue<F>) -> (r: Self)
        ensures
            r@ == (ExprModel { anchor: Some(date@), ops: Seq::empty() }),
    {
        DateExpr { anchor: DateExprAnchor::Value(date), ops: Vec::new() }
    }

    /// The expression with `op` added after its operations.
    pub fn with_op(self, op: DateExprOp) -> (r: Self)
        ensures
            r@ == self@.with_op(op),
    {
        let mut expr = self;
        expr.ops.push(op);
        expr
    }

    /// Adds `value` years.
    pub fn add_years(self, value: usize) -> (r: Self)
        ensures
            r@ == self@.with_op(DateExprOp::Add(value, DateExprOpUnit::Year)),
    {
        self.with_op(DateExprOp::Add(value, DateExprOpUnit::Year))
    }

    /// Subtracts `value` years.
    pub fn sub_years(self, value: usize) -> (r: Self)
        ensures
            r@ == self@.with_op(DateExprOp::Sub(value, DateExprOpUnit::Year)),
    {
        self.with_op(DateExprOp::Sub(value, DateExprOpUnit::Year))
    }

    /// Rounds down to the year.
    pub fn round_year(self) -> (r: Self)
        ensures
            r@ == self@.with_op(DateExprOp::Round(DateExprOpUnit::Year)),
    {
        self.with_op(DateExprOp::Round(DateExprOpUnit::Year))
    }

    /// Adds `value` months.
    pub fn add_months(self, value: usize) -> (r: Self)
        ensures
            r@ == self@.with_op(DateExprOp::Add(value, DateExprOpUnit::Month)),
    {
        self.with_op(DateExprOp::Add(value, DateExprOpUnit::Month))
    }

    /// Subtracts `value` months.
    pub fn sub_months(self, value: usize) -> (r: Self)
        ensures
            r@ == self@.with_op(DateExprOp::Sub(value, DateExprOpUnit::Month)),
    {
        self.with_op(DateExprOp::Sub(value, DateExprOpUnit::Month))
    }

    /// Rounds down to the month.
    pub fn round_month(self) -> (r: Self)
        ensures
            r@ == self@.with_op(DateExprOp::Round(DateExprOpUnit::Month)),
    {
        self.with_op(DateExprOp::Round(DateExprOpUnit::Month))
    }

    /// Adds `value` weeks.
    pub fn add_weeks(self, value: usize) -> (r: Self)
        ensures
            r@ == self@.with_op(DateExprOp::Add(value, DateExprOpUnit::Week)),
    {
        self.with_op(DateExprOp::Add(value, DateExprOpUnit::Week))
    }

    /// Subtracts `value` weeks.
    pub fn sub_weeks(self, value: usize) -> (r: Self)
        ensures
            r@ == self@.with_op(DateExprOp::Sub(value, DateExprOpUnit::Week)),
    {
        self.with_op(DateExprOp::Sub(value, DateExprOpUnit::Week))
    }

    /// Rounds down to the week.
    pub fn round_week(self) -> (r: Self)
        ensures
            r@ == self@.with_op(DateExprOp::Round(DateExprOpUnit::Week)),
    {
        self.with_op(DateExprOp::Round(DateExprOpUnit::Week))
    }

    /// Adds `value` days.
    pub fn add_days(self, value: usize) -> (r: Self)
        ensures
            r@ == self@.with_op(DateExprOp::Add(value, DateExprOpUnit::Day)),
    {
        self.with_op(DateExprOp::Add(value, DateExprOpUnit::Day))
    }

    /// Subtracts `value` days.
    pub fn sub_days(self, value: usize) -> (r: Self)
        ensures
            r@ == self@.with_op(DateExprOp::Sub(value, DateExprOpUnit::Day)),
    {
        self.with_op(DateExprOp::Sub(value, DateExprOpUnit::Day))
    }

    /// Rounds down to the day.
    pub fn round_day(self) -> (r: Self)
        ensures
            r@ == self@.with_op(DateExprOp::Round(DateExprOpUnit::Day)),
    {
        self.with_op(DateExprOp::Round(DateExprOpUnit::Day))
    }

    /// Adds `value` hours.
    pub fn add_hours(self, value: usize) -> (r: Self)
        ensures
            r@ == self@.with_op(DateExprOp::Add(value, DateExprOpUnit::Hour)),
    {
        self.with_op(DateExprOp::Add(value, DateExprOpUnit::Hour))
    }

    /// Subtracts `value` hours.
    pub fn sub_hours(self, value: usize) -> (r: Self)
        ensures
            r@ == self@.with_op(DateExprOp::Sub(value, DateExprOpUnit::Hour)),
    {
        self.with_op(DateExprOp::Sub(value, DateExprOpUnit::Hour))
    }

    /// Rounds down to the hour.
    pub fn round_hour(self) -> (r: Self)
        ensures
            r@ == self@.with_op(DateExprOp::Round(DateExprOpUnit::Hour)),
    {
        self.with_op(DateExprOp::Round(DateExprOpUnit::Hour))
    }

    /// Adds `value` minutes.
    pub fn add_minutes(self, value: usize) -> (r: Self)
        ensures
            r@ == self@.with_op(DateExprOp::Add(value, DateExprOpUnit::Minute)),
    {
        self.with_op(DateExprOp::Add(value, DateExprOpUnit::Minute))
    }

    /// Subtracts `value` minutes.
    pub fn sub_minutes(self, value: usize) -> (r: Self)
        ensures
            r@ == self@.with_op(DateExprOp::Sub(value, DateExprOpUnit::Minute)),
    {
        self.with_op(DateExprOp::Sub(value, DateExprOpUnit::Minute))
    }

    /// Rounds down to the minute.
    pub fn round_minute(self) -> (r: Self)
        ensures
            r@ == self@.with_op(DateExprOp::Round(DateExprOpUnit::Minute)),
    {
        self.with_op(DateExprOp::Round(DateExprOpUnit::Minute))
    }

    /// Adds `value` seconds.
    pub fn add_seconds(self, value: usize) -> (r: Self)
        ensures
            r@ == self@.with_op(DateExprOp::Add(value, DateExprOpUnit::Second)),
    {
        self.with_op(DateExprOp::Add(value, DateExprOpUnit::Second))
    }

    /// Subtracts `value` seconds.
    pub fn sub_seconds(self, value: usize) -> (r: Self)
        ensures
            r@ == self@.with_op(DateExprOp::Sub(value, DateExprOpUnit::Second)),
    {
        self.with_op(DateExprOp::Sub(value, DateExprOpUnit::Second))
    }

    /// Rounds down to the second.
    pub fn round_second(self) -> (r: Self)
        ensures
            r@ == self@.with_op(DateExprOp::Round(DateExprOpUnit::Second)),
    {
        self.with_op(DateExprOp::Round(DateExprOpUnit::Second))
    }

    /// The text of the expression: the anchor, then each operation in the
    /// order it was added.
    pub fn render(&self) -> (r: String)
        ensures
            r@ == self@.text::<F>(),
    {
        let mut out = String::new();
        self.anchor.write(&mut out);
        let n = self.ops.len();
        let mut i: usize = 0;
        while i < n
            invariant
                i <= n,
                n == self.ops.len(),
                out@ == anchor_text::<F>(self@.anchor) + ops_text(self.ops@.subrange(0, i as int)),
            decreases n - i,
        {
            self.ops[i].write(&mut out);
            proof {
                let done = self.ops@.subrange(0, i as int);
                let next = self.ops@.subrange(0, i + 1);
                assert(next.drop_last() =~= done);
            }
            i = i + 1;
        }
        assert(self.ops@.subrange(0, n as int) =~= self.ops@);
        out
    }
}

} // verus!
