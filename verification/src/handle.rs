//! The one place where a process keeps the handle of its running session
//! for whoever has to close it: the session's own driver when the session
//! ends, or a termination handler that cuts in from outside.

use vstd::prelude::*;

verus! {

/// A cell for one handle. It is filled once, when the backend is opened,
/// and emptied once, by the first that comes to close the handle. Whoever
/// comes second finds it empty and has nothing to close: closing twice does
/// nothing the second time.
#[derive(Debug)]
pub struct HandleSlot {
    handle: Option<i64>,
}

impl View for HandleSlot {
    type V = Option<i64>;

    closed spec fn view(&self) -> Option<i64> {
        self.handle
    }
}

impl HandleSlot {
    /// An empty slot.
    pub fn new() -> (slot: HandleSlot)
        ensures
            slot@ is None,
    {
        HandleSlot { handle: None }
    }

    /// Puts a handle into the slot if the slot is empty, and says whether
    /// it did. A slot that is filled keeps what it holds.
    pub fn install(&mut self, handle: i64) -> (installed: bool)
        ensures
            installed == (old(self)@ is None),
            final(self)@ == (if installed {
                Some(handle)
            } else {
                old(self)@
            }),
    {
        match self.handle {
            None => {
                self.handle = Some(handle);
                true
            },
            Some(_) => false,
        }
    }

    /// Takes the handle out of the slot, to close it. The slot is empty
    /// afterwards, so that a second call gives `None`.
    pub fn take(&mut self) -> (taken: Option<i64>)
        ensures
            taken == old(self)@,
            final(self)@ is None,
    {
        let taken = self.handle;
        self.handle = None;
        taken
    }
}

} // verus!
