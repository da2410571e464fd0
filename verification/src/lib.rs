//! The verified core of an activity monitor: what a desktop agent captures and
//! hides, how idle time is read, how activities are stored and searched, and
//! what the HTTP interface answers.
//!
//! Files, sockets, processes, the database driver and the web framework stay
//! outside; the functions here take and give plain values.

pub mod api;
pub mod db;
pub mod idle;
pub mod model;
pub mod platform;
pub mod text;
pub mod timestamp;
