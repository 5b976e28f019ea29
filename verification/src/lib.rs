//! Synthetic application logs.
//!
//! The crate fabricates structured log records for named environments and
//! renders them as JSON Lines text. Three parts compose:
//!
//! * [`schedule`] spreads a number of records evenly over a time window,
//! * [`entry`] synthesizes one record for a counter and an instant,
//! * [`writer`] renders records as one compact JSON object per line,
//!
//! and [`driver`] strings them together for one environment. Time is modelled
//! in [`time`] as whole nanoseconds on the UTC time line, and [`json`] holds
//! the text encoding of JSON strings and numbers.
//!
//! Every function is verified against its contract. What rests on outside
//! code without proof is named in the documentation of the private functions
//! that call it: the calendar text of an instant and the clock (chrono), the
//! random identifier (uuid), the random choice of an action (rand), and the
//! character appended to a string (the standard library).
//!
//! Nothing here touches a file or prints: a caller writes the text of a
//! [`driver::LogFile`] under its name and shows the notice.

pub mod time;
pub mod entry;
pub mod json;
pub mod writer;
pub mod schedule;
pub mod driver;
