//! Watching a locker service: decode what it reports, pick the locker groups
//! worth a notification, and say what a caller is to send, when, and to whom.
//!
//! The library does no input or output. [`poll::Watch`] is the loop as a
//! machine: it hands out the requests, the measurements and the pauses that
//! are due, and takes in how each went.

pub mod config;
pub mod distance;
pub mod http;
pub mod model;
pub mod ntfy;
pub mod poll;
pub mod text;
pub mod value;
pub mod watch;
