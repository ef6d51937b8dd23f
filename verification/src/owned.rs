//! Scoped ownership of a single GPU handle.
//!
//! A wrapper owns exactly one raw handle together with the sentinel that
//! marks "nothing there" for its type.  The handle can be read freely, but
//! it leaves the wrapper through `take` exactly once: afterwards the wrapper
//! is disarmed and yields nothing, so the destroy call the application makes
//! with the taken handle can never happen twice.  A handle equal to the
//! sentinel never arms the wrapper at all — destroying it is a no-op by
//! contract of the GPU API.

use vstd::prelude::*;

verus! {

/// One GPU handle owned by a scope, with its type's null sentinel.
pub struct OwnedHandle {
    handle: u64,
    sentinel: u64,
    armed: bool,
}

impl OwnedHandle {
    /// The raw handle value held.
    pub closed spec fn spec_handle(self) -> u64 {
        self.handle
    }

    /// The value that means "no object" for this handle's type.
    pub closed spec fn spec_sentinel(self) -> u64 {
        self.sentinel
    }

    /// Whether the wrapper still owes a destroy call.
    pub closed spec fn spec_armed(self) -> bool {
        self.armed
    }

    /// A wrapper is only ever armed over a real handle.
    pub open spec fn wf(self) -> bool {
        self.spec_armed() ==> self.spec_handle() != self.spec_sentinel()
    }

    /// Take ownership of a freshly created handle.  The wrapper arms itself
    /// exactly when the handle is not the sentinel.
    pub fn acquire(handle: u64, sentinel: u64) -> (r: Self)
        ensures
            r.spec_handle() == handle,
            r.spec_sentinel() == sentinel,
            r.spec_armed() == (handle != sentinel),
            r.wf(),
    {
        OwnedHandle { handle, sentinel, armed: handle != sentinel }
    }

    /// Read the handle without transferring ownership.
    pub fn get(&self) -> (r: u64)
        ensures
            r == self.spec_handle(),
    {
        self.handle
    }

    /// Whether the wrapper still owes a destroy call.
    pub fn is_armed(&self) -> (r: bool)
        ensures
            r == self.spec_armed(),
    {
        self.armed
    }

    /// The one way the handle leaves for destruction: `Some` exactly when
    /// the wrapper is still armed, and the wrapper is disarmed afterwards —
    /// so over the wrapper's whole life at most one `Some` is ever handed
    /// out, and never the sentinel.
    pub fn take(&mut self) -> (r: Option<u64>)
        requires
            old(self).wf(),
        ensures
            final(self).spec_handle() == old(self).spec_handle(),
            final(self).spec_sentinel() == old(self).spec_sentinel(),
            !final(self).spec_armed(),
            final(self).wf(),
            match r {
                Some(h) => {
                    &&& old(self).spec_armed()
                    &&& h == old(self).spec_handle()
                    &&& h != old(self).spec_sentinel()
                },
                None => !old(self).spec_armed(),
            },
    {
        if self.armed {
            self.armed = false;
            Some(self.handle)
        } else {
            None
        }
    }
}

} // verus!
