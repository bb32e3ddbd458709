//! Low-level CAN bus stream sessions.

use vstd::prelude::*;

verus! {

/// An open read stream over the CAN bus. The native layer hands out the
/// session handle; `capacity` is the queue depth the session was opened
/// with.
#[derive(PartialEq, Eq, Debug, Structural)]
pub struct StreamSession {
    handle: u32,
    capacity: u32,
}

impl StreamSession {
    /// The handle of the session as the specification sees it.
    pub closed spec fn spec_handle(&self) -> u32 {
        self.handle
    }

    /// The queue depth as the specification sees it.
    pub closed spec fn spec_capacity(&self) -> u32 {
        self.capacity
    }

    /// Wraps a freshly opened session: the native handle and the maximum
    /// message count the session was opened with.
    pub fn new(handle: u32, max_messages: u32) -> (r: Self)
        ensures
            r.spec_handle() == handle,
            r.spec_capacity() == max_messages,
    {
        StreamSession { handle, capacity: max_messages }
    }

    /// The raw session handle.
    pub fn handle(&self) -> (r: u32)
        ensures
            r == self.spec_handle(),
    {
        self.handle
    }

    /// The queue depth the session was opened with.
    pub fn capacity(&self) -> (r: u32)
        ensures
            r == self.spec_capacity(),
    {
        self.capacity
    }

    /// How many messages a read may ask the native layer for, given the
    /// caller's buffer length: no more than the buffer holds, and no more
    /// than the session's queue depth.
    pub fn read_limit(&self, buffer_len: usize) -> (r: u32)
        ensures
            r == if buffer_len < self.spec_capacity() as usize {
                buffer_len as u32
            } else {
                self.spec_capacity()
            },
    {
        if buffer_len < self.capacity as usize {
            buffer_len as u32
        } else {
            self.capacity
        }
    }
}

} // verus!
