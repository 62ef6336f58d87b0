//! The calendar that date values live in: the proleptic Gregorian calendar
//! in UTC, from year 0 to year 9999, with millisecond precision.

use vstd::prelude::*;

verus! {

/// An instant as the calendar names it. This is the mathematical model of a
/// date value: every format speaks of an instant, not of how it is stored.
pub ghost struct Instant {
    pub year: int,
    pub month: int,
    pub day: int,
    pub hour: int,
    pub minute: int,
    pub second: int,
    pub milli: int,
}

/// The instant that seven calendar fields name.
pub open spec fn instant_of(
    year: int,
    month: int,
    day: int,
    hour: int,
    minute: int,
    second: int,
    milli: int,
) -> Instant {
    Instant { year, month, day, hour, minute, second, milli }
}

/// The milliseconds of one day.
pub const DAY_MILLIS: i64 = 86_400_000;

/// The day number of 1970-01-01, counted from 0000-01-01 as day 0.
pub const EPOCH_DAY: i64 = 719_528;

/// The epoch milliseconds of 0000-01-01T00:00:00.000, the first instant.
pub const MIN_EPOCH_MILLIS: i64 = -62_167_219_200_000;

/// The epoch milliseconds of 9999-12-31T23:59:59.999, the last instant.
pub const MAX_EPOCH_MILLIS: i64 = 253_402_300_799_999;

/// Whether February has 29 days in year `y`.
pub open spec fn is_leap_year(y: int) -> bool {
    y % 4 == 0 && (y % 100 != 0 || y % 400 == 0)
}

/// The number of days of month `m` in year `y`.
pub open spec fn days_in_month(y: int, m: int) -> int {
    if m == 2 {
        if is_leap_year(y) {
            29
        } else {
            28
        }
    } else if m == 4 || m == 6 || m == 9 || m == 11 {
        30
    } else {
        31
    }
}

/// The number of days of year `y`.
pub open spec fn days_in_year(y: int) -> int {
    if is_leap_year(y) {
        366
    } else {
        365
    }
}

/// The number of days from 0000-01-01 to the first day of year `y`: 365 for
/// each year before it and one more for each leap year among them.
pub open spec fn days_before_year(y: int) -> int
    recommends
        y >= 0,
{
    365 * y + (y + 3) / 4 - (y + 99) / 100 + (y + 399) / 400
}

/// The number of days from the first day of year `y` to the first day of its
/// month `m`.
pub open spec fn days_before_month(y: int, m: int) -> int
    decreases m,
{
    if m <= 1 {
        0
    } else {
        days_before_month(y, m - 1) + days_in_month(y, m - 1)
    }
}

impl Instant {
    /// Whether the calendar has this instant: a year from 0 to 9999, a day
    /// that its month has in that year, and a time of day to the millisecond.
    pub open spec fn valid(self) -> bool {
        &&& 0 <= self.year <= 9999
        &&& 1 <= self.month <= 12
        &&& 1 <= self.day <= days_in_month(self.year, self.month)
        &&& 0 <= self.hour <= 23
        &&& 0 <= self.minute <= 59
        &&& 0 <= self.second <= 59
        &&& 0 <= self.milli <= 999
    }

    /// The number of its day, counted from 0000-01-01 as day 0.
    pub open spec fn day_number(self) -> int {
        days_before_year(self.year) + days_before_month(self.year, self.month) + self.day - 1
    }

    /// The milliseconds from midnight to it.
    pub open spec fn millis_of_day(self) -> int {
        self.hour * 3_600_000 + self.minute * 60_000 + self.second * 1000 + self.milli
    }

    /// The milliseconds from 1970-01-01T00:00:00.000 to it, negative before.
    pub open spec fn epoch_millis(self) -> int {
        (self.day_number() - EPOCH_DAY) * DAY_MILLIS + self.millis_of_day()
    }

    /// Whether it comes before `other` when both are read field by field,
    /// year first.
    pub open spec fn precedes(self, other: Instant) -> bool {
        self.year < other.year || (self.year == other.year && (self.month < other.month || (
        self.month == other.month && (self.day < other.day || (self.day == other.day && (self.hour
            < other.hour || (self.hour == other.hour && (self.minute < other.minute || (self.minute
            == other.minute && (self.second < other.second || (self.second == other.second
            && self.milli < other.milli)))))))))))
    }
}

/// Whether `ms` is the epoch milliseconds of an instant of the calendar.
pub open spec fn in_calendar(ms: int) -> bool {
    MIN_EPOCH_MILLIS <= ms <= MAX_EPOCH_MILLIS
}

/// The epoch is 1970-01-01T00:00:00.000, and the calendar runs from
/// 0000-01-01T00:00:00.000 to 9999-12-31T23:59:59.999.
pub proof fn lemma_calendar_ends()
    ensures
        instant_of(1970, 1, 1, 0, 0, 0, 0).epoch_millis() == 0,
        instant_of(0, 1, 1, 0, 0, 0, 0).epoch_millis() == MIN_EPOCH_MILLIS,
        instant_of(9999, 12, 31, 23, 59, 59, 999).epoch_millis() == MAX_EPOCH_MILLIS,
{
    reveal_with_fuel(days_before_month, 13);
}

/// A year ends where the next one begins.
pub proof fn lemma_year_length(y: int)
    requires
        y >= 0,
    ensures
        days_before_year(y + 1) == days_before_year(y) + days_in_year(y),
{
}

/// Later years begin later.
pub proof fn lemma_years_in_order(a: int, b: int)
    requires
        0 <= a < b,
    ensures
        days_before_year(a + 1) <= days_before_year(b),
{
}

/// The months of a year fill it: each begins where the one before ends, and
/// the twelfth ends with the year.
pub proof fn lemma_months_fill_year(y: int, m: int)
    requires
        1 <= m <= 12,
    ensures
        0 <= days_before_month(y, m),
        days_before_month(y, m) + days_in_month(y, m) <= days_in_year(y),
        m < 12 ==> days_before_month(y, m + 1) == days_before_month(y, m) + days_in_month(y, m),
{
    reveal_with_fuel(days_before_month, 13);
}

/// Later months begin after earlier ones end.
pub proof fn lemma_months_in_order(y: int, a: int, b: int)
    requires
        1 <= a < b <= 12,
    ensures
        days_before_month(y, a) + days_in_month(y, a) <= days_before_month(y, b),
{
    reveal_with_fuel(days_before_month, 13);
}

/// A day of the calendar lies within its year.
pub proof fn lemma_day_within_year(v: Instant)
    requires
        v.valid(),
    ensures
        days_before_year(v.year) <= v.day_number() < days_before_year(v.year + 1),
        0 <= v.day_number() <= 3_652_424,
{
    lemma_months_fill_year(v.year, v.month);
    lemma_year_length(v.year);
}

/// Every instant of the calendar has its epoch milliseconds in range.
pub proof fn lemma_epoch_millis_in_calendar(v: Instant)
    requires
        v.valid(),
    ensures
        in_calendar(v.epoch_millis()),
        0 <= v.millis_of_day() < DAY_MILLIS,
{
    lemma_day_within_year(v);
}

/// An earlier day of the calendar has the smaller day number.
pub proof fn lemma_days_in_order(a: Instant, b: Instant)
    requires
        a.valid(),
        b.valid(),
        a.year < b.year || (a.year == b.year && (a.month < b.month || (a.month == b.month && a.day
            < b.day))),
    ensures
        a.day_number() < b.day_number(),
{
    lemma_day_within_year(a);
    lemma_day_within_year(b);
    if a.year < b.year {
        lemma_years_in_order(a.year, b.year);
    } else if a.month < b.month {
        lemma_months_in_order(a.year, a.month, b.month);
    }
}

/// The epoch milliseconds order the instants of the calendar as their fields
/// do.
pub proof fn lemma_precedes_is_earlier(a: Instant, b: Instant)
    requires
        a.valid(),
        b.valid(),
    ensures
        a.precedes(b) <==> a.epoch_millis() < b.epoch_millis(),
        a == b <==> a.epoch_millis() == b.epoch_millis(),
{
    lemma_epoch_millis_in_calendar(a);
    lemma_epoch_millis_in_calendar(b);
    let same_day = a.year == b.year && a.month == b.month && a.day == b.day;
    if a.year < b.year || (a.year == b.year && (a.month < b.month || (a.month == b.month && a.day
        < b.day))) {
        lemma_days_in_order(a, b);
    } else if !same_day {
        lemma_days_in_order(b, a);
    }
}

/// Whether February has 29 days in year `y`.
pub fn leap_year(y: i32) -> (r: bool)
    requires
        0 <= y,
    ensures
        r == is_leap_year(y as int),
{
    y % 4 == 0 && (y % 100 != 0 || y % 400 == 0)
}

/// The number of days of month `m` in year `y`.
pub fn month_days(y: i32, m: u32) -> (r: u32)
    requires
        0 <= y,
    ensures
        r == days_in_month(y as int, m as int),
{
    if m == 2 {
        if leap_year(y) {
            29
        } else {
            28
        }
    } else if m == 4 || m == 6 || m == 9 || m == 11 {
        30
    } else {
        31
    }
}

/// The number of days from the first day of year `y` to the first day of its
/// month `m`.
pub fn days_to_month(y: i32, m: u32) -> (r: i64)
    requires
        0 <= y,
        1 <= m <= 12,
    ensures
        r == days_before_month(y as int, m as int),
        0 <= r < 366,
{
    let mut total: i64 = 0;
    let mut k: u32 = 1;
    while k < m
        invariant
            0 <= y,
            1 <= k <= m <= 12,
            total == days_before_month(y as int, k as int),
            0 <= total <= 31 * (k - 1),
        decreases m - k,
    {
        total = total + month_days(y, k) as i64;
        k = k + 1;
    }
    proof {
        lemma_months_fill_year(y as int, m as int);
    }
    total
}

/// The instant of the calendar that is `ms` milliseconds from the epoch.
pub open spec fn instant_at(ms: int) -> Instant
    recommends
        in_calendar(ms),
{
    choose|v: Instant| v.valid() && v.epoch_millis() == ms
}

/// Every day number of the calendar is the number of one of its days.
pub proof fn lemma_day_exists(n: int) -> (v: Instant)
    requires
        0 <= n <= 3_652_424,
    ensures
        v.valid(),
        v.day_number() == n,
        v.millis_of_day() == 0,
    decreases n,
{
    reveal_with_fuel(days_before_month, 13);
    if n == 0 {
        Instant { year: 0, month: 1, day: 1, hour: 0, minute: 0, second: 0, milli: 0 }
    } else {
        let p = lemma_day_exists(n - 1);
        lemma_day_within_year(p);
        if p.day < days_in_month(p.year, p.month) {
            Instant { day: p.day + 1, ..p }
        } else if p.month < 12 {
            Instant { month: p.month + 1, day: 1, ..p }
        } else {
            lemma_year_length(p.year);
            Instant { year: p.year + 1, month: 1, day: 1, ..p }
        }
    }
}

/// Every number of milliseconds in range is the epoch milliseconds of
/// exactly one instant of the calendar, and `instant_at` names it.
pub proof fn lemma_instant_at(ms: int)
    requires
        in_calendar(ms),
    ensures
        instant_at(ms).valid(),
        instant_at(ms).epoch_millis() == ms,
{
    let shifted = ms - MIN_EPOCH_MILLIS;
    let n = shifted / (DAY_MILLIS as int);
    let t = shifted % (DAY_MILLIS as int);
    let d = lemma_day_exists(n);
    let v = Instant {
        hour: t / 3_600_000,
        minute: t / 60_000 % 60,
        second: t / 1000 % 60,
        milli: t % 1000,
        ..d
    };
    assert(v.valid() && v.epoch_millis() == ms);
}

/// `instant_at` undoes `epoch_millis`.
pub proof fn lemma_instant_at_epoch_millis(v: Instant)
    requires
        v.valid(),
    ensures
        instant_at(v.epoch_millis()) == v,
{
    lemma_epoch_millis_in_calendar(v);
    lemma_instant_at(v.epoch_millis());
    lemma_precedes_is_earlier(instant_at(v.epoch_millis()), v);
}

} // verus!
