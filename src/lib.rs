//! Decides when an active log file must be rolled over: once it reaches a
//! size limit, or once the local calendar date changes.

pub mod date;
pub mod log_time;
pub mod size;
pub mod compound;
