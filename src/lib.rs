//! A point-to-point binary protocol between a host and a motion controller:
//! fixed 15-byte frames, a byte-level resynchronising frame reader, and the
//! two-state model of the single device connection.

pub mod error;
pub mod frame;
pub mod link;
pub mod reader;
