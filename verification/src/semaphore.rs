//! The counting semaphore.

use crate::duration::Duration;
use crate::error::OsErr;
use crate::kernel::Kernel;
use crate::thread::{Wait, WaitQueueId, WakeCause};
use crate::traits::SyncPrimitive;
use vstd::prelude::*;

verus! {

/// A counting semaphore: a number of tokens between zero and a limit, and a
/// queue of the threads that wait for one.
pub struct Semaphore {
    queue: WaitQueueId,
    count: u8,
    limit: u8,
}

/// The count after a take: one less, if there is a token to take.
pub open spec fn count_after_take(count: int) -> int {
    if count > 0 {
        count - 1
    } else {
        count
    }
}

/// The count after a give: a thread that waits gets the token and the count
/// stays; else the count grows by one, up to the limit and not beyond it.
pub open spec fn count_after_give(count: int, limit: int, waiter: bool) -> int {
    if waiter {
        count
    } else if count < limit {
        count + 1
    } else {
        count
    }
}

impl Semaphore {
    /// The wait queue of the semaphore.
    pub closed spec fn queue(&self) -> WaitQueueId {
        self.queue
    }

    /// The number of tokens.
    pub closed spec fn count(&self) -> int {
        self.count as int
    }

    /// The largest number of tokens.
    pub closed spec fn limit(&self) -> int {
        self.limit as int
    }

    /// Whether a thread waits for a token in `kernel`.
    pub open spec fn has_waiter(&self, kernel: &Kernel) -> bool {
        self.queue() < kernel@.waitqs.len() && kernel@.waitqs[self.queue() as int].len() > 0
    }

    /// Makes a semaphore with `initial` tokens of at most `limit`. Fails
    /// with `EINVAL`, with nothing changed, if `initial` exceeds `limit` or
    /// the kernel's table of wait queues is full.
    pub fn new(kernel: &mut Kernel, initial: u8, limit: u8) -> (r: Result<Semaphore, OsErr>)
        requires
            old(kernel).wf(),
        ensures
            final(kernel).wf(),
            r is Ok <==> initial <= limit && old(kernel)@.waitqs.len()
                < old(kernel)@.config.max_wait_queues,
            r matches Ok(s) ==> s.inv() && s.count() == initial && s.limit() == limit && s.queue()
                == old(kernel)@.waitqs.len() && final(kernel)@ == old(kernel)@.add_queue(),
            r matches Err(e) ==> e == OsErr::EINVAL && final(kernel)@ == old(kernel)@,
    {
        if initial > limit {
            return Err(OsErr::EINVAL);
        }
        match kernel.add_queue() {
            Ok(queue) => Ok(Semaphore { queue, count: initial, limit }),
            Err(e) => Err(e),
        }
    }

    /// Does away with the semaphore: every thread that waits on it is woken with
    /// `ECANCELED`. Returns the number of threads woken.
    pub fn destroy(self, kernel: &mut Kernel) -> (woken: usize)
        requires
            old(kernel).wf(),
        ensures
            final(kernel).wf(),
            final(kernel)@ == old(kernel)@.wake_all(
                self.queue(),
                WakeCause::Canceled,
                Seq::empty(),
                if self.queue() < old(kernel)@.waitqs.len() {
                    old(kernel)@.waitqs[self.queue() as int].len()
                } else {
                    0
                },
            ),
            woken == if self.queue() < old(kernel)@.waitqs.len() {
                old(kernel)@.waitqs[self.queue() as int].len()
            } else {
                0
            },
    {
        kernel.cancel(self.queue)
    }

    /// The handle of the semaphore's wait queue in the kernel.
    pub fn handle(&self) -> (w: WaitQueueId)
        ensures
            w == self.queue(),
    {
        self.queue
    }

    /// The number of tokens.
    pub fn tokens(&self) -> (n: u8)
        ensures
            n == self.count(),
    {
        self.count
    }

    /// The largest number of tokens.
    pub fn capacity(&self) -> (n: u8)
        ensures
            n == self.limit(),
    {
        self.limit
    }
}

impl SyncPrimitive for Semaphore {
    type Swap = ();

    /// The count is between zero and the limit.
    open spec fn inv(&self) -> bool {
        0 <= self.count() <= self.limit()
    }

    /// Takes a token. With a token there, the count drops by one and the
    /// call is done. With none, the running thread blocks in the
    /// semaphore's queue for at most `duration`.
    fn acquire(&mut self, kernel: &mut Kernel, duration: Duration) -> (r: Result<Wait<()>, OsErr>)
        ensures
            final(self).queue() == old(self).queue(),
            final(self).limit() == old(self).limit(),
            final(self).count() == count_after_take(old(self).count()),
            old(self).count() > 0 ==> r == Ok::<Wait<()>, OsErr>(Wait::Done(())) && final(kernel)@
                == old(kernel)@,
            old(self).count() == 0 ==> final(kernel)@ == old(kernel)@.block(
                old(self).queue(),
                duration,
            ) && r == match old(kernel)@.block_result(old(self).queue(), duration) {
                Ok(_) => Ok::<Wait<()>, OsErr>(Wait::Pending),
                Err(e) => Err::<Wait<()>, OsErr>(e),
            },
    {
        if self.count > 0 {
            self.count = self.count - 1;
            return Ok(Wait::Done(()));
        }
        match kernel.block_on(self.queue, duration) {
            Ok(()) => Ok(Wait::Pending),
            Err(e) => Err(e),
        }
    }

    /// Gives a token. If a thread waits, the oldest waiter is woken with
    /// the token and the count stays. Else the count grows by one; at the
    /// limit it cannot, and the token comes back as the error.
    fn release(&mut self, kernel: &mut Kernel, released: ()) -> (r: Result<(), ()>)
        ensures
            final(self).queue() == old(self).queue(),
            final(self).limit() == old(self).limit(),
            final(self).count() == count_after_give(
                old(self).count(),
                old(self).limit(),
                old(self).has_waiter(old(kernel)),
            ),
            final(kernel)@ == old(kernel)@.wake_first(old(self).queue(), Seq::empty()),
            r is Err <==> !old(self).has_waiter(old(kernel)) && old(self).count() == old(self).limit(),
    {
        if kernel.waiters(self.queue) > 0 {
            kernel.wake_first(self.queue, Vec::new());
            return Ok(());
        }
        if self.count < self.limit {
            self.count = self.count + 1;
            Ok(())
        } else {
            Err(())
        }
    }

    /// Collects the outcome of a take that had to wait: success if a token
    /// was handed over, `ETIMEDOUT` or `ECANCELED` if the wait ended
    /// without one.
    fn resume(&mut self, kernel: &mut Kernel) -> (r: Result<(), OsErr>)
        ensures
            *final(self) == *old(self),
            final(kernel)@ == old(kernel)@.collected(),
            r == old(kernel)@.verdict(),
    {
        match kernel.collect() {
            Ok(_) => Ok(()),
            Err(e) => Err(e),
        }
    }
}

/// One operation on a semaphore's count.
pub enum SemOp {
    /// A take.
    Take,
    /// A give, with or without a thread waiting.
    Give { waiter: bool },
}

/// The count after one operation.
pub open spec fn count_after(count: int, limit: int, op: SemOp) -> int {
    match op {
        SemOp::Take => count_after_take(count),
        SemOp::Give { waiter } => count_after_give(count, limit, waiter),
    }
}

/// The count after a sequence of operations.
pub open spec fn count_after_all(count: int, limit: int, ops: Seq<SemOp>) -> int
    decreases ops.len(),
{
    if ops.len() == 0 {
        count
    } else {
        count_after(count_after_all(count, limit, ops.drop_last()), limit, ops.last())
    }
}

/// The count of a semaphore never goes below zero and never exceeds its
/// limit, whatever sequence of takes and gives it sees.
pub proof fn lemma_semaphore_bound(count: int, limit: int, ops: Seq<SemOp>)
    requires
        0 <= count <= limit,
    ensures
        0 <= count_after_all(count, limit, ops) <= limit,
    decreases ops.len(),
{
    if ops.len() > 0 {
        lemma_semaphore_bound(count, limit, ops.drop_last());
    }
}

} // verus!
