//! Remaining workdays between a moment and the end of an obligation.
//!
//! A day counts when it falls on Monday to Friday and is no holiday. The
//! current day counts as the part of an eight-hour shift that is still ahead,
//! every later day up to the last one counts whole.

pub mod calendar;
pub mod holidays;
pub mod workdays;
