use vstd::prelude::*;

verus! {

/// After a close on a handle that was `closed` before: whether it is closed
/// now, and whether this close must signal the loop and wait for it.
pub open spec fn close_outcome(closed: bool) -> (bool, bool) {
    (true, !closed)
}

/// Closing is idempotent: whatever state a handle is in, once closed a second
/// close neither signals nor waits, and leaves it closed.
pub proof fn lemma_close_idempotent(closed: bool)
    ensures
        close_outcome(close_outcome(closed).0) == (true, false),
{
}

/// The host-side record of whether a monitor handle was shut down.
pub struct Lifecycle {
    closed: bool,
}

impl Lifecycle {
    pub closed spec fn spec_closed(&self) -> bool {
        self.closed
    }

    /// An open handle.
    pub fn new() -> (r: Self)
        ensures
            !r.spec_closed(),
    {
        Lifecycle { closed: false }
    }

    /// Marks the handle closed; true when this is the first close, which alone
    /// must send the shutdown message and wait for the loop to exit.
    pub fn close(&mut self) -> (signal: bool)
        ensures
            (final(self).spec_closed(), signal) == close_outcome(old(self).spec_closed()),
    {
        let signal = !self.closed;
        self.closed = true;
        signal
    }

    /// Whether the handle was closed.
    pub fn is_closed(&self) -> (r: bool)
        ensures
            r == self.spec_closed(),
    {
        self.closed
    }
}

} // verus!
