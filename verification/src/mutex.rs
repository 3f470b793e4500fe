//! The reentrant mutex.

use crate::duration::Duration;
use crate::error::OsErr;
use crate::kernel::Kernel;
use crate::queue::first_max;
use crate::thread::{ThreadId, Wait, WaitQueueId, WakeCause};
use crate::traits::SyncPrimitive;
use vstd::prelude::*;

verus! {

/// What a mutex holds.
pub struct MutexView {
    /// The thread that holds the mutex, if any.
    pub owner: Option<ThreadId>,
    /// How many times the owner holds it.
    pub depth: int,
    /// How many times a thread may hold it at once.
    pub max_depth: int,
}

impl MutexView {
    /// A free mutex.
    pub open spec fn free(max_depth: int) -> MutexView {
        MutexView { owner: None, depth: 0, max_depth }
    }

    /// The depth is zero exactly if the mutex is free, and within the limit.
    pub open spec fn inv(self) -> bool {
        &&& 0 <= self.depth <= self.max_depth
        &&& self.owner is None <==> self.depth == 0
    }

    /// Whether thread `t` gets the mutex at once: it is free, or `t` holds
    /// it already; in both cases below the limit.
    pub open spec fn grants(self, t: ThreadId) -> bool {
        (self.owner is None || self.owner == Some(t)) && self.depth < self.max_depth
    }

    /// Whether thread `t` has to wait for the mutex: another thread holds it.
    pub open spec fn held_from(self, t: ThreadId) -> bool {
        self.owner is Some && self.owner != Some(t)
    }

    /// The mutex after thread `t` asked for it: one deeper if it was granted.
    pub open spec fn lock(self, t: ThreadId) -> MutexView {
        if self.grants(t) {
            MutexView { owner: Some(t), depth: self.depth + 1, ..self }
        } else {
            self
        }
    }

    /// Whether thread `t` may release the mutex: it holds it.
    pub open spec fn releasable(self, t: Option<ThreadId>) -> bool {
        t is Some && self.owner == t
    }

    /// The mutex after its owner released it once: one less deep, and at
    /// depth zero handed to `next`, the waiter of the highest priority, or
    /// free if nobody waits.
    pub open spec fn unlock(self, next: Option<ThreadId>) -> MutexView {
        if self.depth > 1 {
            MutexView { depth: self.depth - 1, ..self }
        } else {
            match next {
                Some(w) => MutexView { owner: Some(w), depth: 1, ..self },
                None => MutexView { owner: None, depth: 0, ..self },
            }
        }
    }

    /// The mutex after thread `t` asked for it `n` times in a row.
    pub open spec fn lock_times(self, t: ThreadId, n: nat) -> MutexView
        decreases n,
    {
        if n == 0 {
            self
        } else {
            self.lock_times(t, (n - 1) as nat).lock(t)
        }
    }

    /// The mutex after its owner released it `n` times in a row with nobody
    /// waiting.
    pub open spec fn unlock_times(self, n: nat) -> MutexView
        decreases n,
    {
        if n == 0 {
            self
        } else {
            self.unlock_times((n - 1) as nat).unlock(None)
        }
    }
}

/// A thread that asks `n` times for a free mutex holds it `n` deep.
pub proof fn lemma_lock_times(max_depth: int, t: ThreadId, n: nat)
    requires
        n <= max_depth,
    ensures
        MutexView::free(max_depth).lock_times(t, n).depth == n,
        MutexView::free(max_depth).lock_times(t, n).max_depth == max_depth,
        n > 0 ==> MutexView::free(max_depth).lock_times(t, n).owner == Some(t),
        n == 0 ==> MutexView::free(max_depth).lock_times(t, n).owner is None,
    decreases n,
{
    if n > 0 {
        lemma_lock_times(max_depth, t, (n - 1) as nat);
    }
}

/// A mutex held `n` deep and released `k` times, `k` at most `n`, is held
/// `n - k` deep by the same thread, and free if `k` is `n`.
pub proof fn lemma_unlock_times(m: MutexView, k: nat)
    requires
        m.inv(),
        k <= m.depth,
    ensures
        m.unlock_times(k).depth == m.depth - k,
        m.unlock_times(k).max_depth == m.max_depth,
        k < m.depth ==> m.unlock_times(k).owner == m.owner,
        k == m.depth ==> m.unlock_times(k).owner is None,
    decreases k,
{
    if k > 0 {
        lemma_unlock_times(m, (k - 1) as nat);
    }
}

/// A thread that acquired a free mutex `n` times must release it exactly
/// `n` times before another thread can acquire it: after fewer releases the
/// other thread is not granted it and has to wait, after `n` it is granted.
pub proof fn lemma_mutex_reentrancy(max_depth: int, t: ThreadId, other: ThreadId, n: nat, k: nat)
    requires
        1 <= n <= max_depth,
        k <= n,
        t != other,
    ensures
        k < n ==> !MutexView::free(max_depth).lock_times(t, n).unlock_times(k).grants(other)
            && MutexView::free(max_depth).lock_times(t, n).unlock_times(k).held_from(other),
        k == n ==> MutexView::free(max_depth).lock_times(t, n).unlock_times(k).grants(other),
{
    lemma_lock_times(max_depth, t, n);
    lemma_unlock_times(MutexView::free(max_depth).lock_times(t, n), k);
}

/// A reentrant mutex: its owner, how deep the owner holds it, and a queue of
/// the threads that wait for it. The priority of the owner is not raised to
/// that of a waiter.
pub struct Mutex {
    queue: WaitQueueId,
    owner: Option<ThreadId>,
    depth: u8,
    max_depth: u8,
}

impl Mutex {
    /// What the mutex holds.
    pub closed spec fn view(&self) -> MutexView {
        MutexView { owner: self.owner, depth: self.depth as int, max_depth: self.max_depth as int }
    }

    /// The wait queue of the mutex.
    pub closed spec fn queue(&self) -> WaitQueueId {
        self.queue
    }

    /// The thread that a release at depth one hands the mutex to: the waiter
    /// of the highest priority, the oldest of them; none if nobody waits.
    pub open spec fn heir(&self, kernel: &Kernel) -> Option<ThreadId> {
        let k = kernel@;
        let w = self.queue();
        if w < k.waitqs.len() && k.waitqs[w as int].len() > 0 {
            Some(k.waitqs[w as int][first_max(k.waiter_keys(w))])
        } else {
            None
        }
    }

    /// Makes a free mutex that a thread may hold as deep as the kernel's
    /// options allow. Fails with `EINVAL`, with nothing changed, if the
    /// kernel's table of wait queues is full.
    pub fn new(kernel: &mut Kernel) -> (r: Result<Mutex, OsErr>)
        requires
            old(kernel).wf(),
        ensures
            final(kernel).wf(),
            r is Ok <==> old(kernel)@.waitqs.len() < old(kernel)@.config.max_wait_queues,
            r matches Ok(m) ==> m.inv() && m@ == MutexView::free(
                old(kernel)@.config.mutex_max_depth as int,
            ) && m.queue() == old(kernel)@.waitqs.len() && final(kernel)@
                == old(kernel)@.add_queue(),
            r matches Err(e) ==> e == OsErr::EINVAL && final(kernel)@ == old(kernel)@,
    {
        let max_depth: u8 = kernel.config().mutex_max_depth;
        match kernel.add_queue() {
            Ok(queue) => Ok(Mutex { queue, owner: None, depth: 0, max_depth }),
            Err(e) => Err(e),
        }
    }

    /// Does away with the mutex: every thread that waits on it is woken with
    /// `ECANCELED`. Returns the number of threads woken.
    pub fn destroy(self, kernel: &mut Kernel) -> (woken: usize)
        requires
            old(kernel).wf(),
        ensures
            final(kernel).wf(),
            final(kernel)@ == old(kernel)@.wake_all(
                self.queue(),
                WakeCause::Canceled,
                Seq::empty(),
                if self.queue() < old(kernel)@.waitqs.len() {
                    old(kernel)@.waitqs[self.queue() as int].len()
                } else {
                    0
                },
            ),
            woken == if self.queue() < old(kernel)@.waitqs.len() {
                old(kernel)@.waitqs[self.queue() as int].len()
            } else {
                0
            },
    {
        kernel.cancel(self.queue)
    }

    /// The handle of the mutex's wait queue in the kernel.
    pub fn handle(&self) -> (w: WaitQueueId)
        ensures
            w == self.queue(),
    {
        self.queue
    }

    /// The thread that holds the mutex, if any.
    pub fn holder(&self) -> (owner: Option<ThreadId>)
        ensures
            owner == self@.owner,
    {
        self.owner
    }

    /// How many times the owner holds the mutex.
    pub fn held(&self) -> (depth: u8)
        ensures
            depth == self@.depth,
    {
        self.depth
    }
}

impl SyncPrimitive for Mutex {
    type Swap = ();

    /// The depth is zero exactly if the mutex is free, and within the limit.
    open spec fn inv(&self) -> bool {
        self@.inv()
    }

    /// Locks the mutex for the running thread. A free mutex is taken. A
    /// mutex the thread holds already is taken once more, without waiting,
    /// unless the limit is reached: then the call fails as busy. If another
    /// thread holds it, the running thread blocks in the mutex's queue for
    /// at most `duration`. With no thread running the call fails as busy.
    fn acquire(&mut self, kernel: &mut Kernel, duration: Duration) -> (r: Result<Wait<()>, OsErr>)
        ensures
            final(self).queue() == old(self).queue(),
            match old(kernel)@.current {
                None => r == Err::<Wait<()>, OsErr>(OsErr::EBUSY) && final(self)@ == old(self)@
                    && final(kernel)@ == old(kernel)@,
                Some(c) => if old(self)@.held_from(c) {
                    &&& final(self)@ == old(self)@
                    &&& final(kernel)@ == old(kernel)@.block(old(self).queue(), duration)
                    &&& r == match old(kernel)@.block_result(old(self).queue(), duration) {
                        Ok(_) => Ok::<Wait<()>, OsErr>(Wait::Pending),
                        Err(e) => Err::<Wait<()>, OsErr>(e),
                    }
                } else {
                    &&& final(self)@ == old(self)@.lock(c)
                    &&& final(kernel)@ == old(kernel)@
                    &&& r == if old(self)@.grants(c) {
                        Ok::<Wait<()>, OsErr>(Wait::Done(()))
                    } else {
                        Err::<Wait<()>, OsErr>(OsErr::EBUSY)
                    }
                },
            },
    {
        let c = match kernel.current() {
            Some(c) => c,
            None => {
                return Err(OsErr::EBUSY);
            },
        };
        match self.owner {
            None => {
                if self.depth < self.max_depth {
                    self.owner = Some(c);
                    self.depth = self.depth + 1;
                    Ok(Wait::Done(()))
                } else {
                    Err(OsErr::EBUSY)
                }
            },
            Some(o) => {
                if o == c {
                    if self.depth < self.max_depth {
                        self.depth = self.depth + 1;
                        Ok(Wait::Done(()))
                    } else {
                        Err(OsErr::EBUSY)
                    }
                } else {
                    match kernel.block_on(self.queue, duration) {
                        Ok(()) => Ok(Wait::Pending),
                        Err(e) => Err(e),
                    }
                }
            },
        }
    }

    /// Unlocks the mutex once. Only the running thread that holds it may:
    /// any other release fails and changes nothing. The depth drops by one;
    /// at zero the mutex goes to the waiter of the highest priority, which
    /// is woken, or is free if nobody waits.
    fn release(&mut self, kernel: &mut Kernel, released: ()) -> (r: Result<(), ()>)
        ensures
            final(self).queue() == old(self).queue(),
            r is Ok <==> old(self)@.releasable(old(kernel)@.current),
            r is Err ==> final(self)@ == old(self)@ && final(kernel)@ == old(kernel)@,
            r is Ok ==> final(self)@ == old(self)@.unlock(old(self).heir(old(kernel))),
            r is Ok ==> final(kernel)@ == if old(self)@.depth > 1 {
                old(kernel)@
            } else {
                old(kernel)@.wake_highest(old(self).queue(), Seq::empty())
            },
    {
        let c = match kernel.current() {
            Some(c) => c,
            None => {
                return Err(());
            },
        };
        match self.owner {
            None => Err(()),
            Some(o) => {
                if o != c {
                    return Err(());
                }
                if self.depth > 1 {
                    self.depth = self.depth - 1;
                    return Ok(());
                }
                match kernel.wake_highest(self.queue, Vec::new()) {
                    Some(w) => {
                        self.owner = Some(w);
                        self.depth = 1;
                    },
                    None => {
                        self.owner = None;
                        self.depth = 0;
                    },
                }
                Ok(())
            },
        }
    }

    /// Collects the outcome of a lock that had to wait: success if the mutex
    /// was handed over, `ETIMEDOUT` or `ECANCELED` if the wait ended
    /// without it.
    fn resume(&mut self, kernel: &mut Kernel) -> (r: Result<(), OsErr>)
        ensures
            *final(self) == *old(self),
            final(kernel)@ == old(kernel)@.collected(),
            r == old(kernel)@.verdict(),
    {
        match kernel.collect() {
            Ok(_) => Ok(()),
            Err(e) => Err(e),
        }
    }
}

} // verus!
