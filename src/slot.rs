use vstd::prelude::*;

verus! {

/// The storage for one transport's session: closed, or open with exactly one
/// handle. The slot owns the handle; nothing else keeps a reference to it.
pub struct Slot<H> {
    handle: Option<H>,
}

impl<H> View for Slot<H> {
    type V = Option<H>;

    closed spec fn view(&self) -> Option<H> {
        self.handle
    }
}

impl<H> Slot<H> {
    /// A closed slot.
    pub fn new() -> (r: Slot<H>)
        ensures
            r@ is None,
    {
        Slot { handle: None }
    }

    /// Whether a session is open.
    pub fn is_open(&self) -> (r: bool)
        ensures
            r == self@ is Some,
    {
        self.handle.is_some()
    }

    /// Stores `handle` as the open session. A session that was already open
    /// is replaced, not refused; its handle is handed back so that the caller
    /// can drop it.
    pub fn set(&mut self, handle: H) -> (previous: Option<H>)
        ensures
            final(self)@ == Some(handle),
            previous == old(self)@,
    {
        let previous = self.handle.take();
        self.handle = Some(handle);
        previous
    }

    /// Removes the session's handle, leaving the slot closed.
    pub fn take(&mut self) -> (r: Option<H>)
        ensures
            r == old(self)@,
            final(self)@ is None,
    {
        self.handle.take()
    }

    /// Exclusive access to the open session's handle, without taking it out.
    pub fn handle_mut(&mut self) -> (r: Option<&mut H>)
        ensures
            old(self)@ is None ==> r is None && final(self)@ is None,
            old(self)@ is Some ==> r is Some,
            r matches Some(h) ==> old(self)@ == Some(*h) && final(self)@ == Some(*final(h)),
    {
        self.handle.as_mut()
    }
}

} // verus!
