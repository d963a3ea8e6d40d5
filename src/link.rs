//! The single device connection: either nothing is open, or one handle is.
//! Every path to the handle goes through `port`, which refuses while
//! nothing is open.

use vstd::prelude::*;
use crate::error::GatewayError;

verus! {

/// Zero or one open device handle.
pub enum Connection<H> {
    Uninitialized,
    Open(H),
}

impl<H> Connection<H> {
    /// A connection with nothing open.
    pub fn new() -> (r: Connection<H>)
        ensures
            r is Uninitialized,
    {
        Connection::Uninitialized
    }

    /// Installs `handle`, releasing whatever handle was held before.
    pub fn open(&mut self, handle: H)
        ensures
            *final(self) == Connection::Open(handle),
    {
        *self = Connection::Uninitialized;
        *self = Connection::Open(handle);
    }

    /// Whether a handle is open.
    pub fn is_open(&self) -> (r: bool)
        ensures
            r == (self is Open),
    {
        match self {
            Connection::Open(_) => true,
            Connection::Uninitialized => false,
        }
    }

    /// The open handle, or `NotInitialized` while nothing is open.
    pub fn port(&mut self) -> (r: Result<&mut H, GatewayError>)
        ensures
            (*old(self)) is Uninitialized ==> r == Err::<&mut H, GatewayError>(
                GatewayError::NotInitialized,
            ) && *final(self) == *old(self),
            (*old(self)) is Open ==> r is Ok && *r->Ok_0 == (*old(self))->Open_0 && *final(self)
                == Connection::Open(*final(r->Ok_0)),
    {
        match self {
            Connection::Open(h) => Ok(h),
            Connection::Uninitialized => Err(GatewayError::NotInitialized),
        }
    }
}

} // verus!
