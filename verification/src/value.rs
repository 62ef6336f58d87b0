//! The date value: one instant of the calendar, with no format attached.
//! Every format writes and reads this type, so a date can change its format
//! without changing what it means.

use crate::calendar::{
    days_to_month, in_calendar, instant_at, instant_of, lemma_day_within_year,
    lemma_epoch_millis_in_calendar, lemma_instant_at, lemma_precedes_is_earlier, month_days,
    Instant, DAY_MILLIS, EPOCH_DAY, MAX_EPOCH_MILLIS, MIN_EPOCH_MILLIS,
};
use chrono::{Datelike, Timelike};
use std::cmp::Ordering;
use vstd::prelude::*;
use vstd::std_specs::cmp::PartialOrdSpecImpl;

verus! {

/// A UTC instant with millisecond precision, held as its calendar fields.
///
/// Only instants that the calendar has can be built: `build` asks for valid
/// fields and `checked_build` returns `None` for any others. Nothing is
/// rounded, wrapped or carried over.
#[derive(Clone, Copy, Debug, PartialEq, Eq, Ord, Hash, Structural)]
pub struct DateValue {
    year: i32,
    month: u32,
    day: u32,
    hour: u32,
    minute: u32,
    second: u32,
    milli: u32,
}

impl View for DateValue {
    type V = Instant;

    closed spec fn view(&self) -> Instant {
        instant_of(
            self.year as int,
            self.month as int,
            self.day as int,
            self.hour as int,
            self.minute as int,
            self.second as int,
            self.milli as int,
        )
    }
}

impl PartialOrd for DateValue {
    /// Date values are ordered as their instants are: the earlier is the
    /// less.
    fn partial_cmp(&self, other: &DateValue) -> (r: Option<Ordering>) {
        if self.precedes(other) {
            Some(Ordering::Less)
        } else if self.same_instant(other) {
            Some(Ordering::Equal)
        } else {
            Some(Ordering::Greater)
        }
    }
}

impl PartialOrdSpecImpl for DateValue {
    open spec fn obeys_partial_cmp_spec() -> bool {
        true
    }

    open spec fn partial_cmp_spec(&self, other: &DateValue) -> Option<Ordering> {
        if self@.precedes(other@) {
            Some(Ordering::Less)
        } else if self@ == other@ {
            Some(Ordering::Equal)
        } else {
            Some(Ordering::Greater)
        }
    }
}

/// Reads the system clock with `std::time::SystemTime::now` and gives the
/// reading in milliseconds from the epoch, as chrono's
/// `From<SystemTime> for DateTime<Utc>` and `timestamp_millis` make it. The
/// conversion takes a clock that is set before 1970 too, and the reading is
/// then negative; chrono's own range of some 262,000 years either side of
/// the epoch holds every time that a system clock shows. Nothing is claimed
/// of the reading.
#[verifier::external_body]
fn clock_epoch_millis() -> (ms: i64) {
    chrono::DateTime::<chrono::Utc>::from(std::time::SystemTime::now()).timestamp_millis()
}

/// The calendar fields of the instant that is `ms` milliseconds from the
/// epoch: year, month, day, hour, minute, second and millisecond. They are
/// computed by `chrono::DateTime::from_timestamp_millis` and read with
/// `year`, `month`, `day`, `hour`, `minute`, `second` and
/// `timestamp_subsec_millis`. chrono counts in the proleptic Gregorian
/// calendar without leap seconds, so the fields are a day that the month
/// has and a time of day, and they count back to `ms`; for a timestamp from
/// year 0 to year 9999 it returns `Some`.
#[verifier::external_body]
fn civil_from_epoch_millis(ms: i64) -> (r: (i32, u32, u32, u32, u32, u32, u32))
    requires
        in_calendar(ms as int),
    ensures
        instant_of(
            r.0 as int,
            r.1 as int,
            r.2 as int,
            r.3 as int,
            r.4 as int,
            r.5 as int,
            r.6 as int,
        ).valid(),
        instant_of(
            r.0 as int,
            r.1 as int,
            r.2 as int,
            r.3 as int,
            r.4 as int,
            r.5 as int,
            r.6 as int,
        ).epoch_millis() == ms,
{
    let t = chrono::DateTime::from_timestamp_millis(ms).unwrap();
    let date = (t.year(), t.month(), t.day());
    let time = (t.hour(), t.minute(), t.second(), t.timestamp_subsec_millis());
    (date.0, date.1, date.2, time.0, time.1, time.2, time.3)
}

impl DateValue {
    /// Every date value is an instant of the calendar.
    #[verifier::type_invariant]
    pub open spec fn well_formed(self) -> bool {
        self@.valid()
    }

    /// Two date values are the same value where they are the same instant.
    pub proof fn lemma_instant_tells_the_value(a: DateValue, b: DateValue)
        ensures
            a@ == b@ <==> a == b,
    {
    }

    /// The date value of the given calendar fields, which must name an
    /// instant of the calendar.
    pub fn build(
        year: i32,
        month: u32,
        day: u32,
        hour: u32,
        minute: u32,
        second: u32,
        milli: u32,
    ) -> (r: DateValue)
        requires
            instant_of(
                year as int,
                month as int,
                day as int,
                hour as int,
                minute as int,
                second as int,
                milli as int,
            ).valid(),
        ensures
            r@ == instant_of(
                year as int,
                month as int,
                day as int,
                hour as int,
                minute as int,
                second as int,
                milli as int,
            ),
    {
        DateValue { year, month, day, hour, minute, second, milli }
    }

    /// The date value of the given calendar fields, or `None` if they name
    /// no instant of the calendar.
    pub fn checked_build(
        year: i32,
        month: u32,
        day: u32,
        hour: u32,
        minute: u32,
        second: u32,
        milli: u32,
    ) -> (r: Option<DateValue>)
        ensures
            match r {
                Some(v) => v@ == instant_of(
                    year as int,
                    month as int,
                    day as int,
                    hour as int,
                    minute as int,
                    second as int,
                    milli as int,
                ) && v@.valid(),
                None => !instant_of(
                    year as int,
                    month as int,
                    day as int,
                    hour as int,
                    minute as int,
                    second as int,
                    milli as int,
                ).valid(),
            },
    {
        if 0 <= year && year <= 9999 && 1 <= month && month <= 12 && 1 <= day && day <= month_days(
            year,
            month,
        ) && hour <= 23 && minute <= 59 && second <= 59 && milli <= 999 {
            Some(DateValue::build(year, month, day, hour, minute, second, milli))
        } else {
            None
        }
    }

    /// The date value that is `ms` milliseconds from the epoch, or `None`
    /// if that is before year 0 or after year 9999.
    pub fn from_epoch_millis(ms: i64) -> (r: Option<DateValue>)
        ensures
            match r {
                Some(v) => in_calendar(ms as int) && v@ == instant_at(ms as int) && v@.valid()
                    && v@.epoch_millis() == ms,
                None => !in_calendar(ms as int),
            },
    {
        if MIN_EPOCH_MILLIS <= ms && ms <= MAX_EPOCH_MILLIS {
            let (year, month, day, hour, minute, second, milli) = civil_from_epoch_millis(ms);
            let value = DateValue::build(year, month, day, hour, minute, second, milli);
            proof {
                lemma_instant_at(ms as int);
                lemma_precedes_is_earlier(value@, instant_at(ms as int));
            }
            Some(value)
        } else {
            None
        }
    }

    /// The instant that the system clock shows, or `None` if the clock is
    /// set outside the calendar. Each call reads the clock anew: the result
    /// is what `from_epoch_millis` makes of the reading, whatever it is.
    pub fn now() -> (r: Option<DateValue>)
        ensures
            exists|ms: int|
                match r {
                    Some(v) => #[trigger] in_calendar(ms) && v@ == instant_at(ms),
                    None => !in_calendar(ms),
                },
            r matches Some(v) ==> v@.valid(),
    {
        let ms = clock_epoch_millis();
        let r = DateValue::from_epoch_millis(ms);
        assert(match r {
            Some(v) => in_calendar(ms as int) && v@ == instant_at(ms as int),
            None => !in_calendar(ms as int),
        });
        r
    }

    /// The year, from 0 to 9999.
    pub fn year(&self) -> (r: i32)
        ensures
            r == self@.year,
            self@.valid(),
    {
        proof {
            use_type_invariant(self);
        }
        self.year
    }

    /// The month, from 1 to 12.
    pub fn month(&self) -> (r: u32)
        ensures
            r == self@.month,
            self@.valid(),
    {
        proof {
            use_type_invariant(self);
        }
        self.month
    }

    /// The day of the month, from 1.
    pub fn day(&self) -> (r: u32)
        ensures
            r == self@.day,
            self@.valid(),
    {
        proof {
            use_type_invariant(self);
        }
        self.day
    }

    /// The hour, from 0 to 23.
    pub fn hour(&self) -> (r: u32)
        ensures
            r == self@.hour,
            self@.valid(),
    {
        proof {
            use_type_invariant(self);
        }
        self.hour
    }

    /// The minute, from 0 to 59.
    pub fn minute(&self) -> (r: u32)
        ensures
            r == self@.minute,
            self@.valid(),
    {
        proof {
            use_type_invariant(self);
        }
        self.minute
    }

    /// The second, from 0 to 59.
    pub fn second(&self) -> (r: u32)
        ensures
            r == self@.second,
            self@.valid(),
    {
        proof {
            use_type_invariant(self);
        }
        self.second
    }

    /// The millisecond within the second, from 0 to 999.
    pub fn millisecond(&self) -> (r: u32)
        ensures
            r == self@.milli,
            self@.valid(),
    {
        proof {
            use_type_invariant(self);
        }
        self.milli
    }

    /// The nanosecond within the second: the millisecond times a million.
    pub fn nanosecond(&self) -> (r: u32)
        ensures
            r == self@.milli * 1_000_000,
            self@.valid(),
    {
        proof {
            use_type_invariant(self);
        }
        self.milli * 1_000_000
    }

    /// The milliseconds from the epoch to this instant, negative before it.
    pub fn epoch_millis(&self) -> (r: i64)
        ensures
            r == self@.epoch_millis(),
            in_calendar(r as int),
    {
        proof {
            use_type_invariant(self);
            lemma_epoch_millis_in_calendar(self@);
            lemma_day_within_year(self@);
        }
        let y: i64 = self.year as i64;
        let before_year: i64 = 365 * y + (y + 3) / 4 - (y + 99) / 100 + (y + 399) / 400;
        let day_number: i64 = before_year + days_to_month(self.year, self.month) + self.day as i64
            - 1;
        let of_day: i64 = self.hour as i64 * 3_600_000 + self.minute as i64 * 60_000
            + self.second as i64 * 1000 + self.milli as i64;
        (day_number - EPOCH_DAY) * DAY_MILLIS + of_day
    }

    /// Whether this instant is earlier than `other`.
    pub fn precedes(&self, other: &DateValue) -> (r: bool)
        ensures
            r == self@.precedes(other@),
            r == (self@.epoch_millis() < other@.epoch_millis()),
    {
        proof {
            use_type_invariant(self);
            use_type_invariant(other);
            lemma_precedes_is_earlier(self@, other@);
        }
        self.year < other.year || (self.year == other.year && (self.month < other.month || (
        self.month == other.month && (self.day < other.day || (self.day == other.day && (self.hour
            < other.hour || (self.hour == other.hour && (self.minute < other.minute || (self.minute
            == other.minute && (self.second < other.second || (self.second == other.second
            && self.milli < other.milli)))))))))))
    }

    /// Whether this is the same instant as `other`.
    pub fn same_instant(&self, other: &DateValue) -> (r: bool)
        ensures
            r == (self@ == other@),
            r == (self@.epoch_millis() == other@.epoch_millis()),
    {
        proof {
            use_type_invariant(self);
            use_type_invariant(other);
            lemma_precedes_is_earlier(self@, other@);
        }
        self.year == other.year && self.month == other.month && self.day == other.day && self.hour
            == other.hour && self.minute == other.minute && self.second == other.second
            && self.milli == other.milli
    }
}

} // verus!
