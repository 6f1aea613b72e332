//! Resolution of work-time entries from partial date, time, duration and
//! pause data, for single invocations and for batches of delimited rows.

pub mod text;
pub mod format;
pub mod time;
pub mod duration;
pub mod entry;
pub mod batch;
pub mod single;
pub mod config;
