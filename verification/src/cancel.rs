//! One-shot cancellation latch: shared by reference among all pollers of one
//! epoch. Once set it can never be unset — the only mutating operation sets
//! it, unconditionally — so a poller that has observed cancellation can rely
//! on every later observation agreeing.

use vstd::prelude::*;

verus! {

/// A latch-only broadcast flag. A fresh epoch starts with it unset.
pub struct CancellationToken {
    pub cancelled: bool,
}

impl CancellationToken {
    /// A fresh, unset token.
    pub fn new() -> (t: CancellationToken)
        ensures
            !t.cancelled,
    {
        CancellationToken { cancelled: false }
    }

    /// Set the latch. Idempotent, and irreversible: no operation of the token
    /// ever clears `cancelled` again.
    pub fn cancel(&mut self)
        ensures
            final(self).cancelled,
    {
        self.cancelled = true;
    }

    /// Observe the latch.
    pub fn is_cancelled(&self) -> (r: bool)
        ensures
            r == self.cancelled,
    {
        self.cancelled
    }
}

} // verus!
