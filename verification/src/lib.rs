//! A representation of a date and time.
//!
//! A [`DateTime`] is an instant: seconds since the Unix epoch, the nanoseconds
//! within the second, and a time zone that says which wall clock the
//! accessors read. An [`interval::TimeInterval`] is the signed distance
//! between two instants. Both hold their nanoseconds as a count from zero up
//! to a second, whatever the sign of the whole.
//!
//! - [`instant`] holds the date and time, its accessors and its arithmetic;
//!   [`order`] its equality and order; [`builder`] its construction from the
//!   fields of a calendar and a clock.
//! - [`format`] writes a date and time by a `strftime`-like pattern, and
//!   [`parse`] reads one from a text.
//! - [`literal`] reads duration literals such as `1d12h30m`.
//! - [`sql`] converts to and from the counts that database columns hold.
//! - [`calendar`] states the Gregorian calendar and calls the `date` crate
//!   for it; [`zone`] calls the crate for the time zone database.
//! - [`arith`] and [`text`] hold floor division and the writing of numbers.

pub mod arith;
pub mod builder;
pub mod calendar;
pub mod format;
pub mod instant;
pub mod interval;
pub mod literal;
pub mod order;
pub mod parse;
pub mod sql;
pub mod text;
pub mod zone;

pub use crate::builder::DateTimeBuilder;
pub use crate::builder::FromDate;
pub use crate::calendar::Weekday;
pub use crate::format::FormattedDateTime;
pub use crate::instant::Date;
pub use crate::instant::DateTime;
pub use crate::instant::Precision;
