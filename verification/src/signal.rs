//! The signal: an event that stays raised until it is reset.

use crate::duration::Duration;
use crate::error::OsErr;
use crate::kernel::Kernel;
use crate::model::KernelView;
use crate::thread::{Wait, WaitQueueId, WakeCause};
use crate::traits::SyncPrimitive;
use vstd::prelude::*;

verus! {

/// What a signal holds.
pub struct SignalView {
    /// Whether the signal is raised.
    pub raised: bool,
    /// The value it was last raised with.
    pub value: u8,
}

impl SignalView {
    /// The signal after it was raised with `value`.
    pub open spec fn raise(self, value: u8) -> SignalView {
        SignalView { raised: true, value }
    }

    /// The signal after a reset: lowered, whatever it was.
    pub open spec fn reset(self) -> SignalView {
        SignalView { raised: false, ..self }
    }

    /// What an acquire returns for a thread of the kernel in state `k`: the
    /// value at once if the signal is raised; else what the attempt to
    /// block on wait queue `queue` for at most `d` gives.
    pub open spec fn poll(self, k: KernelView, queue: WaitQueueId, d: Duration) -> Result<
        Wait<u8>,
        OsErr,
    > {
        if self.raised {
            Ok(Wait::Done(self.value))
        } else {
            match k.block_result(queue, d) {
                Ok(_) => Ok(Wait::Pending),
                Err(e) => Err(e),
            }
        }
    }
}

/// A signal raised with a value gives that value at once to every acquire,
/// whichever thread asks and whatever the kernel's state, and an acquire
/// does not lower it; after a reset no acquire gets a value at once.
pub proof fn lemma_signal_persistence(
    s: SignalView,
    value: u8,
    k1: KernelView,
    k2: KernelView,
    queue: WaitQueueId,
    d1: Duration,
    d2: Duration,
)
    ensures
        s.raise(value).poll(k1, queue, d1) == Ok::<Wait<u8>, OsErr>(Wait::Done(value)),
        s.raise(value).poll(k2, queue, d2) == Ok::<Wait<u8>, OsErr>(Wait::Done(value)),
        !(s.raise(value).reset().poll(k1, queue, d1) matches Ok(Wait::Done(_))),
        s.raise(value).reset().raise(value).poll(k2, queue, d2) == Ok::<Wait<u8>, OsErr>(
            Wait::Done(value),
        ),
{
}

/// A signal: a flag with a value, and a queue of the threads that wait for
/// the flag to be raised.
pub struct Signal {
    queue: WaitQueueId,
    raised: bool,
    value: u8,
}

/// The one value in `bytes`, if it holds just one.
pub open spec fn single(bytes: Seq<u8>) -> Result<u8, OsErr> {
    if bytes.len() == 1 {
        Ok(bytes[0])
    } else {
        Err(OsErr::EINVAL)
    }
}

impl Signal {
    /// What the signal holds.
    pub closed spec fn view(&self) -> SignalView {
        SignalView { raised: self.raised, value: self.value }
    }

    /// The wait queue of the signal.
    pub closed spec fn queue(&self) -> WaitQueueId {
        self.queue
    }

    /// Makes a signal that is not raised. Fails with `EINVAL`, with nothing
    /// changed, if the kernel's table of wait queues is full.
    pub fn new(kernel: &mut Kernel) -> (r: Result<Signal, OsErr>)
        requires
            old(kernel).wf(),
        ensures
            final(kernel).wf(),
            r is Ok <==> old(kernel)@.waitqs.len() < old(kernel)@.config.max_wait_queues,
            r matches Ok(s) ==> !s@.raised && s.queue() == old(kernel)@.waitqs.len()
                && final(kernel)@ == old(kernel)@.add_queue(),
            r matches Err(e) ==> e == OsErr::EINVAL && final(kernel)@ == old(kernel)@,
    {
        match kernel.add_queue() {
            Ok(queue) => Ok(Signal { queue, raised: false, value: 0 }),
            Err(e) => Err(e),
        }
    }

    /// Lowers the signal. Nobody is woken.
    pub fn reset(&mut self)
        ensures
            final(self)@ == old(self)@.reset(),
            final(self).queue() == old(self).queue(),
    {
        self.raised = false;
    }

    /// Does away with the signal: every thread that waits on it is woken with
    /// `ECANCELED`. Returns the number of threads woken.
    pub fn destroy(self, kernel: &mut Kernel) -> (woken: usize)
        requires
            old(kernel).wf(),
        ensures
            final(kernel).wf(),
            final(kernel)@ == old(kernel)@.wake_all(
                self.queue(),
                WakeCause::Canceled,
                Seq::empty(),
                if self.queue() < old(kernel)@.waitqs.len() {
                    old(kernel)@.waitqs[self.queue() as int].len()
                } else {
                    0
                },
            ),
            woken == if self.queue() < old(kernel)@.waitqs.len() {
                old(kernel)@.waitqs[self.queue() as int].len()
            } else {
                0
            },
    {
        kernel.cancel(self.queue)
    }

    /// The handle of the signal's wait queue in the kernel.
    pub fn handle(&self) -> (w: WaitQueueId)
        ensures
            w == self.queue(),
    {
        self.queue
    }

    /// Whether the signal is raised.
    pub fn is_raised(&self) -> (b: bool)
        ensures
            b == self@.raised,
    {
        self.raised
    }
}

impl SyncPrimitive for Signal {
    type Swap = u8;

    /// A signal has no invariant of its own.
    open spec fn inv(&self) -> bool {
        true
    }

    /// Waits for the signal. If it is raised the call is done at once with
    /// the value it was raised with, and the signal stays raised. Else the
    /// running thread blocks in the signal's queue for at most `duration`.
    fn acquire(&mut self, kernel: &mut Kernel, duration: Duration) -> (r: Result<Wait<u8>, OsErr>)
        ensures
            final(self)@ == old(self)@,
            final(self).queue() == old(self).queue(),
            r == old(self)@.poll(old(kernel)@, old(self).queue(), duration),
            final(kernel)@ == if old(self)@.raised {
                old(kernel)@
            } else {
                old(kernel)@.block(old(self).queue(), duration)
            },
    {
        if self.raised {
            return Ok(Wait::Done(self.value));
        }
        match kernel.block_on(self.queue, duration) {
            Ok(()) => Ok(Wait::Pending),
            Err(e) => Err(e),
        }
    }

    /// Raises the signal with the value `released`: the signal stays raised
    /// with it until it is reset, and every thread that waits is woken with
    /// it, the oldest first. Always succeeds.
    fn release(&mut self, kernel: &mut Kernel, released: u8) -> (r: Result<(), u8>)
        ensures
            r is Ok,
            final(self)@ == old(self)@.raise(released),
            final(self).queue() == old(self).queue(),
            final(kernel)@ == old(kernel)@.wake_all(
                old(self).queue(),
                WakeCause::Event,
                seq![released],
                if old(self).queue() < old(kernel)@.waitqs.len() {
                    old(kernel)@.waitqs[old(self).queue() as int].len()
                } else {
                    0
                },
            ),
    {
        self.raised = true;
        self.value = released;
        let mut swap: Vec<u8> = Vec::new();
        swap.push(released);
        assert(swap@ =~= seq![released]);
        kernel.wake_all(self.queue, WakeCause::Event, &swap);
        Ok(())
    }

    /// Collects the outcome of a wait that blocked: the value the signal
    /// was raised with, or `ETIMEDOUT` or `ECANCELED` if the wait ended
    /// without one. What was handed over by anything but a signal is
    /// refused with `EINVAL`.
    fn resume(&mut self, kernel: &mut Kernel) -> (r: Result<u8, OsErr>)
        ensures
            *final(self) == *old(self),
            final(kernel)@ == old(kernel)@.collected(),
            r == if old(kernel)@.current is None {
                Err::<u8, OsErr>(OsErr::ENOENT)
            } else {
                match old(kernel)@.outcome() {
                    Ok(bytes) => single(bytes),
                    Err(e) => Err(e),
                }
            },
    {
        match kernel.collect() {
            Ok(bytes) => {
                if bytes.len() == 1 {
                    Ok(bytes[0])
                } else {
                    Err(OsErr::EINVAL)
                }
            },
            Err(e) => Err(e),
        }
    }
}

} // verus!
