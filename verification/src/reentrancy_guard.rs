//! The reentrancy guard: one flag that every mutator takes on entry and gives
//! back on success, so that a call made while another is in flight is refused.

use vstd::prelude::*;
use crate::error::Error;

verus! {

/// The guard's flag. `entered` is true while a protected call is in flight.
#[derive(Clone, Copy, Debug, PartialEq, Eq, Structural)]
pub struct ReentrancyGuard {
    pub entered: bool,
}

impl ReentrancyGuard {
    /// A guard that nobody holds.
    pub fn new() -> (g: ReentrancyGuard)
        ensures
            !g.entered,
    {
        ReentrancyGuard { entered: false }
    }

    /// Takes the guard, or fails with `Reentrancy` and leaves it as it is
    /// when it is already taken.
    pub fn check_and_set(&mut self) -> (r: Result<(), Error>)
        ensures
            old(self).entered ==> r == Err::<(), Error>(Error::Reentrancy) && *final(self) == *old(self),
            !old(self).entered ==> r is Ok && final(self).entered,
    {
        if self.entered {
            Err(Error::Reentrancy)
        } else {
            self.entered = true;
            Ok(())
        }
    }

    /// Gives the guard back.
    pub fn clear(&mut self)
        ensures
            !final(self).entered,
    {
        self.entered = false;
    }
}

/// Fails with `Reentrancy` exactly when a protected call is in flight.
pub fn check_not_entered(guard: &ReentrancyGuard) -> (r: Result<(), Error>)
    ensures
        r == (if guard.entered {
            Err::<(), Error>(Error::Reentrancy)
        } else {
            Ok::<(), Error>(())
        }),
{
    if guard.entered {
        Err(Error::Reentrancy)
    } else {
        Ok(())
    }
}

/// Marks a protected call as in flight.
pub fn set_entered(guard: &mut ReentrancyGuard)
    ensures
        final(guard).entered,
{
    guard.entered = true;
}

/// Marks the protected call as finished.
pub fn clear_entered(guard: &mut ReentrancyGuard)
    ensures
        !final(guard).entered,
{
    guard.entered = false;
}

/// Whether a protected call is in flight.
pub fn is_entered(guard: &ReentrancyGuard) -> (b: bool)
    ensures
        b == guard.entered,
{
    guard.entered
}

} // verus!
