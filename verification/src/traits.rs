//! What the synchronization primitives have in common.

use crate::duration::Duration;
use crate::error::OsErr;
use crate::kernel::Kernel;
use crate::thread::Wait;
use vstd::prelude::*;

verus! {

/// A synchronization primitive: threads acquire it, waiting if they must,
/// and release it, and a value of type `Swap` passes between them.
///
/// A thread that must wait does not wait inside `acquire`: the call blocks
/// the thread in the kernel, lets the next thread run and returns `Pending`.
/// When the blocked thread runs again it calls `resume` for the outcome.
pub trait SyncPrimitive {
    /// The type of value that is passed between threads.
    type Swap;

    /// The primitive's own invariant.
    spec fn inv(&self) -> bool;

    /// Acquires the primitive for the running thread, waiting for at most
    /// `duration` if it is not available.
    fn acquire(&mut self, kernel: &mut Kernel, duration: Duration) -> (r: Result<
        Wait<Self::Swap>,
        OsErr,
    >)
        requires
            old(self).inv(),
            old(kernel).wf(),
        ensures
            final(self).inv(),
            final(kernel).wf(),
    ;

    /// Releases the primitive with the value `released`, which goes to a
    /// waiting thread or to the primitive; a value that can go to neither
    /// comes back as the error.
    fn release(&mut self, kernel: &mut Kernel, released: Self::Swap) -> (r: Result<(), Self::Swap>)
        requires
            old(self).inv(),
            old(kernel).wf(),
        ensures
            final(self).inv(),
            final(kernel).wf(),
    ;

    /// Collects the outcome of an `acquire` that returned `Pending`, once
    /// the thread runs again.
    fn resume(&mut self, kernel: &mut Kernel) -> (r: Result<Self::Swap, OsErr>)
        requires
            old(self).inv(),
            old(kernel).wf(),
        ensures
            final(self).inv(),
            final(kernel).wf(),
    ;
}

} // verus!
