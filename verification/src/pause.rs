//! Pause flags: three independent switches, one per family of entry points.

use vstd::prelude::*;

verus! {

/// Which families of entry points are switched off.
#[derive(Clone, Copy, Debug, PartialEq, Eq, Structural)]
pub struct PauseFlags {
    pub lock_paused: bool,
    pub release_paused: bool,
    pub refund_paused: bool,
}

/// `current` where `change` is absent, the new value where it is given.
pub open spec fn updated<T>(current: T, change: Option<T>) -> T {
    match change {
        Some(v) => v,
        None => current,
    }
}

/// Picks the new value of one optional field of an update.
pub fn apply_change<T: Copy>(current: T, change: Option<T>) -> (r: T)
    ensures
        r == updated(current, change),
{
    match change {
        Some(v) => v,
        None => current,
    }
}

impl PauseFlags {
    /// Nothing is paused.
    pub fn new() -> (f: PauseFlags)
        ensures
            f == (PauseFlags { lock_paused: false, release_paused: false, refund_paused: false }),
    {
        PauseFlags { lock_paused: false, release_paused: false, refund_paused: false }
    }

    /// The flags after an update that names some of them.
    pub open spec fn with(
        self,
        lock: Option<bool>,
        release: Option<bool>,
        refund: Option<bool>,
    ) -> PauseFlags {
        PauseFlags {
            lock_paused: updated(self.lock_paused, lock),
            release_paused: updated(self.release_paused, release),
            refund_paused: updated(self.refund_paused, refund),
        }
    }

    /// Sets the flags that are given and keeps the others.
    pub fn apply(&mut self, lock: Option<bool>, release: Option<bool>, refund: Option<bool>)
        ensures
            *final(self) == old(self).with(lock, release, refund),
    {
        self.lock_paused = apply_change(self.lock_paused, lock);
        self.release_paused = apply_change(self.release_paused, release);
        self.refund_paused = apply_change(self.refund_paused, refund);
    }
}

} // verus!
