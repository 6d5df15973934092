//! Screen casting through PipeWire.
use vstd::prelude::*;

pub mod stream;

verus! {

/// The number of PipeWire's core object.
pub const PW_ID_CORE: u32 = 0;

/// The error of a broken connection.
pub const CONNECTION_LOST: i32 = -32;

/// Whether an error report means that the connection to PipeWire is lost.
pub fn is_fatal_error(id: u32, res: i32) -> (r: bool)
    ensures
        r == (id == PW_ID_CORE && res == CONNECTION_LOST),
{
    id == PW_ID_CORE && res == CONNECTION_LOST
}

/// Whether the connection to PipeWire was lost. Once lost it stays lost.
pub struct PipeWire {
    had_fatal_error: bool,
}

impl PipeWire {
    pub closed spec fn lost(&self) -> bool {
        self.had_fatal_error
    }

    /// A new connection.
    pub fn new() -> (r: Self)
        ensures
            !r.lost(),
    {
        PipeWire { had_fatal_error: false }
    }

    /// PipeWire reported an error. Gives whether it ends the connection.
    pub fn report(&mut self, id: u32, res: i32) -> (r: bool)
        ensures
            r == (id == PW_ID_CORE && res == CONNECTION_LOST),
            final(self).lost() == (old(self).lost() || r),
    {
        let fatal = is_fatal_error(id, res);
        if fatal {
            self.had_fatal_error = true;
        }
        fatal
    }

    /// Check if PipeWire has encountered a fatal error
    pub fn has_fatal_error(&self) -> (r: bool)
        ensures
            r == self.lost(),
    {
        self.had_fatal_error
    }
}

} // verus!
