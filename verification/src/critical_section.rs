//! Critical sections: regions that run with interrupts disabled.

use crate::kernel::Kernel;
use crate::model::KernelView;
use vstd::prelude::*;

verus! {

/// A critical section that is open: interrupts are disabled until it is
/// left.
pub struct Cs {
    key: u8,
}

impl Cs {
    /// What tells how interrupts stood when the section was entered: 1 if
    /// they were enabled, 0 if not.
    pub closed spec fn key(&self) -> u8 {
        self.key
    }

    /// Enters a critical section: interrupts are disabled.
    pub fn new(kernel: &mut Kernel) -> (cs: Cs)
        requires
            old(kernel).wf(),
        ensures
            final(kernel).wf(),
            final(kernel)@ == (KernelView { irq_locked: true, ..old(kernel)@ }),
            cs.key() == if old(kernel)@.irq_locked {
                0u8
            } else {
                1u8
            },
    {
        Cs { key: kernel.irq_lock() }
    }

    /// Leaves the critical section: interrupts are as they were when it was
    /// entered.
    pub fn leave(self, kernel: &mut Kernel)
        requires
            old(kernel).wf(),
        ensures
            final(kernel).wf(),
            final(kernel)@ == (KernelView { irq_locked: self.key() == 0, ..old(kernel)@ }),
    {
        kernel.irq_unlock(self.key);
    }
}

/// Runs `f` in a critical section and returns what it returns. Interrupts
/// are disabled while `f` runs and afterwards are as they were before.
pub fn critical_section<F, R>(kernel: &mut Kernel, f: F) -> (r: R) where F: FnOnce() -> R
    requires
        old(kernel).wf(),
        f.requires(()),
    ensures
        final(kernel).wf(),
        final(kernel)@ == old(kernel)@,
        f.ensures((), r),
{
    let cs = Cs::new(kernel);
    let r = f();
    cs.leave(kernel);
    assert(kernel@ =~= old(kernel)@);
    r
}

} // verus!
