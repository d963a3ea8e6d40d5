//! What can go wrong talking to the device.

use vstd::prelude::*;
use crate::frame::FrameFault;

verus! {

/// Every failure that an operation on the device can report.
#[derive(Clone, Debug, PartialEq, Eq)]
pub enum GatewayError {
    /// No device has been opened yet.
    NotInitialized,
    /// The device could not be opened.
    OpenFailed(String),
    /// A write did not complete.
    WriteFailed(String),
    /// No header, or not enough payload, arrived in time.
    ReadTimeout,
    /// A read failed for another reason.
    ReadFailed(String),
    /// The bytes received do not form a frame.
    InvalidFrame(FrameFault),
}

} // verus!
