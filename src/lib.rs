//! Calendar logic for a monthly forecaster: Easter Sunday by the Anonymous
//! Gregorian algorithm, the invoice month three months before it, the 0/1
//! Easter regressor over a monthly window, and the month arithmetic that
//! aligns a series with the calendar.

pub mod calendar;
pub mod easter;
pub mod request;
