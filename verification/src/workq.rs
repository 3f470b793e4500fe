//! The work queue: a worker thread that runs deferred work in the order it
//! was submitted, some of it after a delay. The worker waits for work in a
//! wait queue of the kernel; while work is delayed it waits with the nearest
//! delay as its deadline, so that the kernel's timeout queue wakes it when a
//! delay ends.

use crate::duration::Duration;
use crate::error::OsErr;
use crate::kernel::Kernel;
use crate::kernel::ticks_until;
use crate::model::{ticks_left, KernelView};
use crate::queue::{first_below, lemma_first_below_unique, lemma_insert_sorted, sorted_desc};
use crate::stack::{initial_stack, FRAME_SIZE};
use crate::thread::{Priority, ThreadId, Wait, WaitQueueId};
use vstd::prelude::*;

verus! {

/// A piece of deferred work: what to call, and with what.
#[derive(Clone, Copy, Debug, PartialEq, Eq, Structural)]
pub struct Work {
    /// The address of the handler.
    pub handler: u16,
    /// The argument it is called with.
    pub arg: u16,
}

/// A piece of work that is submitted once its delay is over.
#[derive(Clone, Copy, Debug, PartialEq, Eq, Structural)]
pub struct Delayed {
    /// The work.
    pub work: Work,
    /// The ticks left of its delay when the delays were last settled; at
    /// least one.
    pub left: u64,
}

/// What a work queue holds.
pub struct WorkQueueView {
    /// The work that is ready to run, the oldest in front.
    pub fifo: Seq<Work>,
    /// The work that waits for its delay to end, the shortest delay in front.
    pub delayed: Seq<Delayed>,
    /// What the tick clock read when the delays were last settled.
    pub since: u64,
}

/// The delays along `delayed`, negated.
pub open spec fn delay_keys(delayed: Seq<Delayed>) -> Seq<int> {
    Seq::new(delayed.len(), |i: int| -(delayed[i].left as int))
}

/// The number of pieces of work whose delay is over once `elapsed` ticks
/// have passed.
pub open spec fn due_count(delayed: Seq<Delayed>, elapsed: int) -> int {
    first_below(delay_keys(delayed), -elapsed)
}

impl WorkQueueView {
    /// The delays are at least one tick each and in order.
    pub open spec fn inv(self) -> bool {
        &&& forall|i: int| 0 <= i < self.delayed.len() ==> (#[trigger] self.delayed[i]).left >= 1
        &&& sorted_desc(delay_keys(self.delayed))
    }

    /// The queue with `work` submitted: at the back of the ready work.
    pub open spec fn submit(self, work: Work) -> WorkQueueView {
        WorkQueueView { fifo: self.fifo.push(work), ..self }
    }

    /// The queue with `work` to be submitted after `ticks` ticks: behind the
    /// delays that are no longer.
    pub open spec fn delay(self, work: Work, ticks: u64) -> WorkQueueView {
        WorkQueueView {
            delayed: self.delayed.insert(
                first_below(delay_keys(self.delayed), -(ticks as int)),
                Delayed { work, left: ticks },
            ),
            ..self
        }
    }

    /// The queue without its oldest ready work, if it had any.
    pub open spec fn take(self) -> WorkQueueView {
        if self.fifo.len() > 0 {
            WorkQueueView { fifo: self.fifo.drop_first(), ..self }
        } else {
            self
        }
    }

    /// The ticks that have passed at clock value `now` since the delays
    /// were last settled.
    pub open spec fn elapsed(self, now: u64) -> int {
        ticks_left(now, self.since)
    }

    /// The number of pieces of work whose delay is over at clock value `now`.
    pub open spec fn due(self, now: u64) -> int {
        due_count(self.delayed, self.elapsed(now))
    }

    /// The queue with its delays settled at clock value `now`: the work
    /// whose delay is over is submitted, in the order of the delays, and the
    /// other delays are shorter by the ticks that have passed.
    pub open spec fn settle(self, now: u64) -> WorkQueueView {
        let e = self.elapsed(now);
        let n = self.due(now);
        WorkQueueView {
            fifo: self.fifo + Seq::new(n as nat, |i: int| self.delayed[i].work),
            delayed: Seq::new(
                (self.delayed.len() - n) as nat,
                |i: int|
                    Delayed {
                        work: self.delayed[n + i].work,
                        left: (self.delayed[n + i].left - e) as u64,
                    },
            ),
            since: now,
        }
    }

    /// The deadline the worker waits with when it has no work: the nearest
    /// delay, or none if no work is delayed.
    pub open spec fn nearest(self) -> Option<int> {
        if self.delayed.len() > 0 {
            Some(self.delayed[0].left as int)
        } else {
            None
        }
    }
}

/// A work queue.
pub struct WorkQueue {
    queue: WaitQueueId,
    worker: ThreadId,
    fifo: Vec<Work>,
    delayed: Vec<Delayed>,
    since: u64,
}

impl WorkQueue {
    /// What the work queue holds.
    pub closed spec fn view(&self) -> WorkQueueView {
        WorkQueueView { fifo: self.fifo@, delayed: self.delayed@, since: self.since }
    }

    /// The wait queue in which the worker waits for work.
    pub closed spec fn queue(&self) -> WaitQueueId {
        self.queue
    }

    /// The worker thread.
    pub closed spec fn worker(&self) -> ThreadId {
        self.worker
    }

    /// The work queue's invariant.
    pub open spec fn inv(&self) -> bool {
        self@.inv()
    }

    /// Whether a work queue with a worker on a stack of `stack_len` bytes
    /// can be made in a kernel in state `k`: the worker can be created, and
    /// the table of wait queues has room for its join queue and for the
    /// queue it waits in.
    pub open spec fn can_make(k: KernelView, stack_len: nat) -> bool {
        k.can_create(stack_len) && k.waitqs.len() + 2 <= k.config.max_wait_queues
    }

    /// Makes an empty work queue and starts its worker: a thread of the
    /// given priority and class on the stack region `stack`, which starts
    /// at `entry` with argument `arg`. Fails with `EINVAL`, with nothing
    /// changed, if the worker or its queues cannot be made.
    pub fn new(
        kernel: &mut Kernel,
        stack: Vec<u8>,
        priority: u8,
        class: Priority,
        symbol: u8,
        entry: u16,
        arg: u16,
    ) -> (r: Result<WorkQueue, OsErr>)
        requires
            old(kernel).wf(),
        ensures
            final(kernel).wf(),
            r is Ok <==> Self::can_make(old(kernel)@, stack@.len()),
            r matches Ok(q) ==> q.inv() && q@.fifo.len() == 0 && q@.delayed.len() == 0 && q@.since
                == old(kernel)@.now && q.queue() == old(kernel)@.waitqs.len() && q.worker()
                == old(kernel)@.threads.len()
                && final(kernel)@ == old(kernel)@.add_queue().create(
                initial_stack(stack@.len(), entry, arg),
                priority,
                class,
                symbol,
                (stack@.len() - FRAME_SIZE) as u16,
            ).enqueue_ready(q.worker()),
            r matches Err(e) ==> e == OsErr::EINVAL && final(kernel)@ == old(kernel)@,
    {
        let config = kernel.config();
        let len: usize = stack.len();
        if len < config.min_stack_size as usize || len > u16::MAX as usize || kernel.thread_count()
            >= config.max_threads || kernel.queue_count() >= config.max_wait_queues
            || config.max_wait_queues - kernel.queue_count() < 2 {
            return Err(OsErr::EINVAL);
        }
        let queue = match kernel.add_queue() {
            Ok(queue) => queue,
            Err(e) => {
                return Err(e);
            },
        };
        let worker = match kernel.thread_create(stack, priority, class, symbol, entry, arg) {
            Ok(worker) => worker,
            Err(e) => {
                return Err(e);
            },
        };
        match kernel.thread_start(worker) {
            Ok(()) => {},
            Err(e) => {
                return Err(e);
            },
        }
        let q = WorkQueue {
            queue,
            worker,
            fifo: Vec::new(),
            delayed: Vec::new(),
            since: kernel.ticks_now(),
        };
        assert(delay_keys(q@.delayed) =~= Seq::empty());
        Ok(q)
    }

    /// The handle of the work queue's wait queue in the kernel.
    pub fn handle(&self) -> (w: WaitQueueId)
        ensures
            w == self.queue(),
    {
        self.queue
    }

    /// The worker thread.
    pub fn worker_thread(&self) -> (t: ThreadId)
        ensures
            t == self.worker(),
    {
        self.worker
    }

    /// The number of pieces of work that are ready to run.
    pub fn pending(&self) -> (n: usize)
        ensures
            n == self@.fifo.len(),
    {
        self.fifo.len()
    }

    /// The number of pieces of work that wait for their delay to end.
    pub fn waiting(&self) -> (n: usize)
        ensures
            n == self@.delayed.len(),
    {
        self.delayed.len()
    }

    /// Submits `work`: it goes to the back of the ready work, and the worker
    /// is woken if it waits for work.
    pub fn submit(&mut self, kernel: &mut Kernel, work: Work)
        requires
            old(self).inv(),
            old(kernel).wf(),
        ensures
            final(self).inv(),
            final(kernel).wf(),
            final(self).queue() == old(self).queue(),
            final(self).worker() == old(self).worker(),
            final(self)@ == old(self)@.submit(work),
            final(kernel)@ == old(kernel)@.wake_first(old(self).queue(), Seq::empty()),
    {
        self.fifo.push(work);
        kernel.wake_first(self.queue, Vec::new());
    }

    /// Settles the delays at clock value `now`: the work whose delay is
    /// over goes to the back of the ready work, in the order of the delays.
    /// Returns the number of pieces of work that were due.
    pub fn settle(&mut self, now: u64) -> (moved: usize)
        requires
            old(self).inv(),
        ensures
            final(self).inv(),
            final(self).queue() == old(self).queue(),
            final(self).worker() == old(self).worker(),
            final(self)@ == old(self)@.settle(now),
            moved == old(self)@.due(now),
    {
        let elapsed: u64 = ticks_until(now, self.since);
        let ghost d0 = self.delayed@;
        let ghost keys = delay_keys(d0);
        let mut n: usize = 0;
        while n < self.delayed.len() && self.delayed[n].left <= elapsed
            invariant
                n <= self.delayed.len(),
                *self == *old(self),
                d0 == self.delayed@,
                forall|k: int| 0 <= k < n ==> (#[trigger] d0[k]).left <= elapsed,
            decreases self.delayed.len() - n,
        {
            n = n + 1;
        }
        proof {
            assert forall|k: int| 0 <= k < n implies keys[k] >= -(elapsed as int) by {
                assert(d0[k].left <= elapsed);
            }
            if n < d0.len() {
                assert(keys[n as int] < -(elapsed as int));
            }
            lemma_first_below_unique(keys, -(elapsed as int), n as int);
            assert forall|k: int| 0 <= k < d0.len() - n implies (#[trigger] d0[n + k]).left
                > elapsed by {
                if k > 0 {
                    assert(keys[n as int] >= keys[n + k]);
                }
                assert(keys[n + k] == -(d0[n + k].left as int));
            }
        }
        let mut moved: usize = 0;
        while moved < n
            invariant
                moved <= n,
                n <= d0.len(),
                forall|k: int| 0 <= k < d0.len() - n ==> (#[trigger] d0[n + k]).left > elapsed,
                self.queue() == old(self).queue(),
                self.worker() == old(self).worker(),
                self.since == old(self).since,
                self.delayed@ == d0.skip(moved as int),
                self.fifo@ == old(self)@.fifo + Seq::new(moved as nat, |i: int| d0[i].work),
            decreases n - moved,
        {
            let item = self.delayed.remove(0);
            self.fifo.push(item.work);
            proof {
                assert(item == d0[moved as int]);
                assert(self.delayed@ =~= d0.skip(moved + 1));
                assert(self.fifo@ =~= old(self)@.fifo + Seq::new(
                    (moved + 1) as nat,
                    |i: int| d0[i].work,
                ));
            }
            moved = moved + 1;
        }
        let mut i: usize = 0;
        while i < self.delayed.len()
            invariant
                i <= self.delayed.len(),
                n <= d0.len(),
                moved == n,
                self.queue() == old(self).queue(),
                self.worker() == old(self).worker(),
                self.since == old(self).since,
                self.fifo@ == old(self)@.fifo + Seq::new(n as nat, |i: int| d0[i].work),
                self.delayed@.len() == d0.len() - n,
                forall|k: int| 0 <= k < d0.len() - n ==> (#[trigger] d0[n + k]).left > elapsed,
                forall|k: int|
                    0 <= k < i ==> self.delayed@[k] == (Delayed {
                        work: d0[n + k].work,
                        left: (d0[n + k].left - elapsed) as u64,
                    }),
                forall|k: int| i <= k < self.delayed@.len() ==> self.delayed@[k] == d0[n + k],
            decreases self.delayed.len() - i,
        {
            let mut item = self.delayed[i];
            assert(d0[n + i].left > elapsed);
            item.left = item.left - elapsed;
            self.delayed.set(i, item);
            i = i + 1;
        }
        self.since = now;
        proof {
            assert(self@.fifo =~= old(self)@.settle(now).fifo);
            assert(self@.delayed =~= old(self)@.settle(now).delayed);
            assert(self@ =~= old(self)@.settle(now));
            let out = self@.delayed;
            assert forall|a: int, b: int| 0 <= a < b < out.len() implies delay_keys(out)[a]
                >= delay_keys(out)[b] by {
                assert(keys[n + a] >= keys[n + b]);
            }
        }
        moved
    }

    /// Submits `work` after a delay of `duration`. A delay of less than a
    /// tick submits it at once. Else the delays are settled at the present
    /// tick and the work waits among them; the worker is woken if work came
    /// due or if the new delay is the nearest, so that it waits no longer
    /// than that. Fails with `EINVAL` for a delay without an end and with
    /// `ENOTSUP` if the kernel's options leave delayed work out; a failed
    /// call changes nothing.
    pub fn submit_delayed(&mut self, kernel: &mut Kernel, work: Work, duration: Duration) -> (r:
        Result<(), OsErr>)
        requires
            old(self).inv(),
            old(kernel).wf(),
        ensures
            final(self).inv(),
            final(kernel).wf(),
            final(self).queue() == old(self).queue(),
            final(self).worker() == old(self).worker(),
            r == if !old(kernel)@.config.events {
                Err::<(), OsErr>(OsErr::ENOTSUP)
            } else if duration.forever() {
                Err::<(), OsErr>(OsErr::EINVAL)
            } else {
                Ok::<(), OsErr>(())
            },
            r is Err ==> final(self)@ == old(self)@ && final(kernel)@ == old(kernel)@,
            r is Ok && old(kernel)@.wait_ticks(duration) == 0 ==> final(self)@ == old(self)@.submit(
                work,
            ) && final(kernel)@ == old(kernel)@.wake_first(old(self).queue(), Seq::empty()),
            r is Ok && old(kernel)@.wait_ticks(duration) > 0 ==> {
                let now = old(kernel)@.now;
                let ticks = old(kernel)@.wait_ticks(duration) as u64;
                let settled = old(self)@.settle(now);
                &&& final(self)@ == settled.delay(work, ticks)
                &&& final(kernel)@ == if old(self)@.due(now) > 0 || first_below(
                    delay_keys(settled.delayed),
                    -(ticks as int),
                ) == 0 {
                    old(kernel)@.wake_first(old(self).queue(), Seq::empty())
                } else {
                    old(kernel)@
                }
            },
    {
        let config = kernel.config();
        if !config.events {
            return Err(OsErr::ENOTSUP);
        }
        if duration.is_forever() {
            return Err(OsErr::EINVAL);
        }
        let ticks: u64 = duration.as_ticks(config.tick_period_us);
        if ticks == 0 {
            self.submit(kernel, work);
            return Ok(());
        }
        let moved = self.settle(kernel.ticks_now());
        let ghost settled = self@;
        let ghost keys = delay_keys(self.delayed@);
        let mut i: usize = 0;
        while i < self.delayed.len() && self.delayed[i].left <= ticks
            invariant
                i <= self.delayed.len(),
                self@ == settled,
                self.queue() == old(self).queue(),
                self.worker() == old(self).worker(),
                keys == delay_keys(self.delayed@),
                forall|k: int| 0 <= k < i ==> keys[k] >= -(ticks as int),
            decreases self.delayed.len() - i,
        {
            i = i + 1;
        }
        proof {
            if i < self.delayed.len() {
                assert(keys[i as int] < -(ticks as int));
            }
            lemma_first_below_unique(keys, -(ticks as int), i as int);
            lemma_insert_sorted(keys, -(ticks as int));
        }
        self.delayed.insert(i, Delayed { work, left: ticks });
        proof {
            assert(delay_keys(self.delayed@) =~= keys.insert(i as int, -(ticks as int)));
            assert(self@ =~= settled.delay(work, ticks));
        }
        if moved > 0 || i == 0 {
            kernel.wake_first(self.queue, Vec::new());
        }
        Ok(())
    }

    /// Takes the oldest ready work, for the worker to run. The delays are
    /// settled at the present tick first. With no work ready the running
    /// thread blocks in the work queue's wait queue, until the nearest delay
    /// ends if work is delayed and without a deadline if none is; it then
    /// calls again.
    pub fn take(&mut self, kernel: &mut Kernel) -> (r: Result<Wait<Work>, OsErr>)
        requires
            old(self).inv(),
            old(kernel).wf(),
        ensures
            final(self).inv(),
            final(kernel).wf(),
            final(self).queue() == old(self).queue(),
            final(self).worker() == old(self).worker(),
            final(self)@ == old(self)@.settle(old(kernel)@.now).take(),
            ({
                let settled = old(self)@.settle(old(kernel)@.now);
                if settled.fifo.len() > 0 {
                    r == Ok::<Wait<Work>, OsErr>(Wait::Done(settled.fifo[0])) && final(kernel)@
                        == old(kernel)@
                } else {
                    &&& final(kernel)@ == old(kernel)@.wait(old(self).queue(), settled.nearest())
                    &&& r == match old(kernel)@.wait_result(old(self).queue(), settled.nearest()) {
                        Ok(_) => Ok::<Wait<Work>, OsErr>(Wait::Pending),
                        Err(e) => Err::<Wait<Work>, OsErr>(e),
                    }
                }
            }),
    {
        self.settle(kernel.ticks_now());
        if self.fifo.len() > 0 {
            let work = self.fifo.remove(0);
            assert(self@.fifo =~= old(self)@.settle(old(kernel)@.now).fifo.drop_first());
            return Ok(Wait::Done(work));
        }
        let nearest: Option<u64> = if self.delayed.len() > 0 {
            Some(self.delayed[0].left)
        } else {
            None
        };
        match kernel.block_ticks(self.queue, nearest) {
            Ok(()) => Ok(Wait::Pending),
            Err(e) => Err(e),
        }
    }
}

} // verus!
