//! Date values for the documents of a search engine.
//!
//! A [`value::DateValue`] is one UTC instant, to the millisecond, of the
//! proleptic Gregorian calendar from year 0 to year 9999. A
//! [`format::DateFormat`] writes an instant as text and reads it back; three
//! formats come with the crate, in [`formats`]. A [`date::Date`] is a date
//! value bound to the format of a field's mapping, and a
//! [`expr::DateExpr`] is a date-math expression such as `now+2d/w`.
//!
//! Fields that name no instant of the calendar are refused: nothing is
//! rounded, wrapped or carried over. A text is read only if the whole of it
//! is what the format would write.

pub mod calendar;
pub mod date;
pub mod digits;
pub mod expr;
pub mod format;
pub mod formats;
pub mod geo_shape;
pub mod mapping;
pub mod prelude;
pub mod value;
