//! The kernel as a state machine over plain values: the state that the
//! contracts speak of, its transitions, and the invariant they keep.

use crate::config::Config;
use crate::duration::Duration;
use crate::error::OsErr;
use crate::queue::{first_below, first_max, sorted_desc, without};
use crate::stack::canaries_intact;
use crate::thread::{Priority, Tcb, ThreadId, ThreadState, WaitQueueId, WakeCause};
use vstd::prelude::*;

verus! {

/// The number of values of the tick clock: it wraps to zero after the last.
pub open spec fn clock_range() -> int {
    0x1_0000_0000_0000_0000
}

/// The ticks from `now` until the clock next reads `deadline`.
pub open spec fn ticks_left(deadline: u64, now: u64) -> int {
    if deadline >= now {
        deadline - now
    } else {
        deadline - now + clock_range()
    }
}

/// What the clock reads `ticks` ticks after `now`.
pub open spec fn clock_add(now: u64, ticks: int) -> u64 {
    if now + ticks >= clock_range() {
        (now + ticks - clock_range()) as u64
    } else {
        (now + ticks) as u64
    }
}

/// The state of the kernel.
#[verifier::ext_equal]
pub struct KernelView {
    /// The options the kernel was made with.
    pub config: Config,
    /// The tick clock.
    pub now: u64,
    /// The running thread, if any.
    pub current: Option<ThreadId>,
    /// The control blocks, by handle.
    pub threads: Seq<Tcb>,
    /// For each thread, the value handed to it when it was last woken.
    pub swaps: Seq<Seq<u8>>,
    /// For each thread, its stack region.
    pub stacks: Seq<Seq<u8>>,
    /// The ready queue, the thread to run next in front.
    pub ready: Seq<ThreadId>,
    /// The timeout queue, the nearest deadline in front.
    pub timeouts: Seq<ThreadId>,
    /// The wait queues, by handle; in each the oldest waiter in front.
    pub waitqs: Seq<Seq<ThreadId>>,
    /// Whether a reschedule is due when the interrupt handler returns.
    pub resched: bool,
    /// Whether interrupts are disabled.
    pub irq_locked: bool,
}

impl KernelView {
    /// The priority of thread `t`.
    pub open spec fn prio(self, t: ThreadId) -> int {
        self.threads[t as int].priority as int
    }

    /// The priorities along the ready queue.
    pub open spec fn ready_keys(self) -> Seq<int> {
        Seq::new(self.ready.len(), |i: int| self.prio(self.ready[i]))
    }

    /// The ticks until the deadline of thread `t`.
    pub open spec fn left(self, t: ThreadId) -> int {
        ticks_left(self.threads[t as int].deadline, self.now)
    }

    /// The ticks left along the timeout queue, negated.
    pub open spec fn timeout_keys(self) -> Seq<int> {
        Seq::new(self.timeouts.len(), |i: int| -self.left(self.timeouts[i]))
    }

    /// Whether `t` is the thread set apart by `limbo`.
    pub open spec fn apart(limbo: Option<ThreadId>, t: ThreadId) -> bool {
        limbo == Some(t)
    }

    /// The tables have one entry per thread, each thread's join queue
    /// exists, and an offset into a stack fits a saved stack pointer.
    pub open spec fn inv_tables(self) -> bool {
        &&& self.config.valid()
        &&& self.swaps.len() == self.threads.len()
        &&& self.stacks.len() == self.threads.len()
        &&& forall|t: int|
            0 <= t < self.threads.len() ==> (#[trigger] self.threads[t]).join_queue
                < self.waitqs.len()
        &&& forall|t: int| 0 <= t < self.stacks.len() ==> (#[trigger] self.stacks[t]).len() <= u16::MAX
    }

    /// The running thread is the one thread in state `Running`.
    pub open spec fn inv_current(self, limbo: Option<ThreadId>) -> bool {
        &&& self.current matches Some(c) ==> c < self.threads.len() && self.threads[c as int].state
            == ThreadState::Running && !Self::apart(limbo, c)
        &&& forall|t: ThreadId|
            t < self.threads.len() && !Self::apart(limbo, t) && (#[trigger] self.threads[t as int]).state
                == ThreadState::Running ==> self.current == Some(t)
    }

    /// The ready queue holds the threads in state `Ready`, each once, by
    /// priority.
    pub open spec fn inv_ready(self, limbo: Option<ThreadId>) -> bool {
        &&& self.ready.no_duplicates()
        &&& forall|i: int|
            0 <= i < self.ready.len() ==> {
                let r = #[trigger] self.ready[i];
                r < self.threads.len() && self.threads[r as int].state == ThreadState::Ready
                    && !Self::apart(limbo, r)
            }
        &&& forall|t: ThreadId|
            t < self.threads.len() && !Self::apart(limbo, t) && (#[trigger] self.threads[t as int]).state
                == ThreadState::Ready ==> self.ready.contains(t)
        &&& sorted_desc(self.ready_keys())
    }

    /// Each wait queue holds the threads that wait on it, each once.
    pub open spec fn inv_waitqs(self, limbo: Option<ThreadId>) -> bool {
        &&& forall|w: int| 0 <= w < self.waitqs.len() ==> (#[trigger] self.waitqs[w]).no_duplicates()
        &&& forall|w: int, i: int|
            0 <= w < self.waitqs.len() && 0 <= i < self.waitqs[w].len() ==> {
                let q = #[trigger] self.waitqs[w][i];
                q < self.threads.len() && self.threads[q as int].state == ThreadState::Waiting
                    && self.threads[q as int].waiting_on == w && !Self::apart(limbo, q)
            }
        &&& forall|t: ThreadId|
            t < self.threads.len() && !Self::apart(limbo, t) && (#[trigger] self.threads[t as int]).state
                == ThreadState::Waiting ==> self.threads[t as int].waiting_on < self.waitqs.len()
                && self.waitqs[self.threads[t as int].waiting_on as int].contains(t)
    }

    /// The timeout queue holds the threads with a deadline, each once, by
    /// deadline; each is blocked and its deadline is still to come.
    pub open spec fn inv_timeouts(self, limbo: Option<ThreadId>) -> bool {
        &&& self.timeouts.no_duplicates()
        &&& forall|i: int|
            0 <= i < self.timeouts.len() ==> {
                let x = #[trigger] self.timeouts[i];
                &&& x < self.threads.len()
                &&& self.threads[x as int].timed
                &&& self.left(x) >= 1
                &&& Self::apart(limbo, x) || self.threads[x as int].state == ThreadState::Waiting
                    || self.threads[x as int].state == ThreadState::Sleeping
            }
        &&& forall|t: ThreadId|
            t < self.threads.len() && (#[trigger] self.threads[t as int]).timed
                ==> self.timeouts.contains(t)
        &&& sorted_desc(self.timeout_keys())
    }

    /// The invariant with one thread set apart: `limbo`, if any, is a thread
    /// that is in no ready or wait queue and is not running, whatever its
    /// state says; all else is as `wf` asks.
    pub open spec fn inv(self, limbo: Option<ThreadId>) -> bool {
        &&& self.inv_tables()
        &&& limbo matches Some(l) ==> l < self.threads.len()
        &&& self.inv_current(limbo)
        &&& self.inv_ready(limbo)
        &&& self.inv_waitqs(limbo)
        &&& self.inv_timeouts(limbo)
    }

    /// The kernel's invariant: states and queues agree. A thread is running
    /// exactly if it is the current one, is in the ready queue exactly if its
    /// state is `Ready`, in the wait queue it names exactly if its state is
    /// `Waiting`, and in the timeout queue exactly if it has a deadline; no
    /// queue holds a thread twice; the ready queue is in priority order and
    /// the timeout queue in deadline order.
    pub open spec fn wf(self) -> bool {
        self.inv(None)
    }

    /// The state with the control block of `t` replaced.
    pub open spec fn set_thread(self, t: ThreadId, tcb: Tcb) -> KernelView {
        KernelView { threads: self.threads.update(t as int, tcb), ..self }
    }

    /// Thread `t` becomes ready: it enters the ready queue behind the
    /// threads of its priority and above.
    pub open spec fn enqueue_ready(self, t: ThreadId) -> KernelView {
        let at = first_below(self.ready_keys(), self.prio(t));
        KernelView {
            threads: self.threads.update(
                t as int,
                Tcb { state: ThreadState::Ready, ..self.threads[t as int] },
            ),
            ready: self.ready.insert(at, t),
            ..self
        }
    }

    /// If no thread runs and one is ready, the head of the ready queue runs.
    pub open spec fn dispatch(self) -> KernelView {
        if self.current is None && self.ready.len() > 0 {
            let h = self.ready[0];
            KernelView {
                current: Some(h),
                ready: self.ready.remove(0),
                threads: self.threads.update(
                    h as int,
                    Tcb { state: ThreadState::Running, ..self.threads[h as int] },
                ),
                ..self
            }
        } else {
            self
        }
    }

    /// Thread `t` gets a deadline `ticks` ticks from now and enters the
    /// timeout queue behind the deadlines that are no later.
    pub open spec fn arm(self, t: ThreadId, ticks: int) -> KernelView {
        let at = first_below(self.timeout_keys(), -ticks);
        KernelView {
            threads: self.threads.update(
                t as int,
                Tcb { timed: true, deadline: clock_add(self.now, ticks), ..self.threads[t as int] },
            ),
            timeouts: self.timeouts.insert(at, t),
            ..self
        }
    }

    /// Thread `t` loses its deadline and leaves the timeout queue.
    pub open spec fn disarm(self, t: ThreadId) -> KernelView {
        KernelView {
            threads: self.threads.update(t as int, Tcb { timed: false, ..self.threads[t as int] }),
            timeouts: without(self.timeouts, t),
            ..self
        }
    }

    /// Thread `t` leaves the wait queue it is in, if it is in one.
    pub open spec fn leave_queue(self, t: ThreadId) -> KernelView {
        if self.threads[t as int].state == ThreadState::Waiting {
            let w = self.threads[t as int].waiting_on as int;
            KernelView { waitqs: self.waitqs.update(w, without(self.waitqs[w], t)), ..self }
        } else {
            self
        }
    }

    /// The blocked thread `t` is woken: it leaves its wait queue and the
    /// timeout queue together, records why it woke and what it was handed,
    /// and becomes ready.
    pub open spec fn wake(self, t: ThreadId, cause: WakeCause, swap: Seq<u8>) -> KernelView {
        let v = self.leave_queue(t).disarm(t);
        let w = KernelView {
            threads: v.threads.update(
                t as int,
                Tcb {
                    timer_expired: cause == WakeCause::Expired,
                    canceled: cause == WakeCause::Canceled,
                    ..v.threads[t as int]
                },
            ),
            swaps: v.swaps.update(t as int, swap),
            ..v
        };
        w.enqueue_ready(t)
    }

    /// Thread `t` enters wait queue `w` at the back and waits.
    pub open spec fn enter_queue(self, t: ThreadId, w: WaitQueueId) -> KernelView {
        KernelView {
            threads: self.threads.update(
                t as int,
                Tcb { state: ThreadState::Waiting, waiting_on: w, ..self.threads[t as int] },
            ),
            waitqs: self.waitqs.update(w as int, self.waitqs[w as int].push(t)),
            ..self
        }
    }

    /// Thread `t` takes state `state`, in no queue on that account.
    pub open spec fn settle(self, t: ThreadId, state: ThreadState) -> KernelView {
        self.set_thread(t, Tcb { state, ..self.threads[t as int] })
    }

    /// The running thread blocks: with a deadline `ticks` ticks from now if
    /// one is given, in wait queue `queue` if one is given and asleep if
    /// not. What it held from its last wake is cleared. Then the next ready
    /// thread runs.
    pub open spec fn suspend(self, queue: Option<WaitQueueId>, ticks: Option<int>) -> KernelView {
        let c = self.current.unwrap();
        let a = KernelView {
            current: None,
            threads: self.threads.update(
                c as int,
                Tcb { timer_expired: false, canceled: false, ..self.threads[c as int] },
            ),
            swaps: self.swaps.update(c as int, Seq::empty()),
            ..self
        };
        let b = match ticks {
            Some(k) => a.arm(c, k),
            None => a,
        };
        let d = match queue {
            Some(w) => b.enter_queue(c, w),
            None => b.settle(c, ThreadState::Sleeping),
        };
        d.dispatch()
    }

    /// The running thread gives way: it goes to the ready queue behind its
    /// equals, and the head of the ready queue runs. With no running thread
    /// the head of the ready queue runs.
    pub open spec fn yield_now(self) -> KernelView {
        match self.current {
            Some(c) => KernelView { current: None, ..self }.enqueue_ready(c).dispatch(),
            None => self.dispatch(),
        }
    }

    /// Whether the deadline in front of the timeout queue falls on the next tick.
    pub open spec fn due(self) -> bool {
        self.timeouts.len() > 0 && self.left(self.timeouts[0]) == 1
    }

    /// Every thread whose deadline falls on the next tick is woken as
    /// expired, the front of the timeout queue first; `fuel` bounds the
    /// number of threads woken.
    pub open spec fn expire(self, fuel: nat) -> KernelView
        decreases fuel,
    {
        if fuel > 0 && self.due() {
            self.wake(self.timeouts[0], WakeCause::Expired, Seq::empty()).expire((fuel - 1) as nat)
        } else {
            self
        }
    }

    /// The front of the timeout queue is popped for as long as its deadline
    /// is the present clock value: each thread popped is woken as expired;
    /// `fuel` bounds the number of threads popped.
    pub open spec fn pop_expired(self, fuel: nat) -> KernelView
        decreases fuel,
    {
        if fuel > 0 && self.timeouts.len() > 0 && self.threads[self.timeouts[0] as int].deadline
            == self.now {
            self.wake(self.timeouts[0], WakeCause::Expired, Seq::empty()).pop_expired(
                (fuel - 1) as nat,
            )
        } else {
            self
        }
    }

    /// Whether the time slice ends at the present tick.
    pub open spec fn slice_due(self) -> bool {
        self.config.time_slice > 0 && self.now as int % self.config.time_slice as int == 0
    }

    /// Whether the processor should change hands when the tick handler
    /// returns: it is idle and a thread is ready, or the running thread is
    /// preemptive and the head of the ready queue has a higher priority, or
    /// the same priority at the end of a time slice.
    pub open spec fn outranked(self) -> bool {
        match self.current {
            None => self.ready.len() > 0,
            Some(c) => self.threads[c as int].class == Priority::Preemptive && self.ready.len() > 0
                && (self.prio(self.ready[0]) > self.prio(c) || (self.slice_due() && self.prio(
                self.ready[0],
            ) == self.prio(c))),
        }
    }

    /// One tick: the clock advances by one, every thread whose deadline is
    /// the new clock value is woken as expired, and a reschedule is flagged
    /// if the processor should change hands. With interrupts disabled the
    /// tick is not taken and nothing changes.
    pub open spec fn tick(self) -> KernelView {
        if self.irq_locked {
            self
        } else {
            let e = self.expire(self.timeouts.len());
            let a = KernelView { now: clock_add(self.now, 1), ..e };
            KernelView { resched: a.resched || a.outranked(), ..a }
        }
    }

    /// The processor is taken from the running thread if it is preemptive;
    /// an idle processor takes the head of the ready queue.
    pub open spec fn preempt(self) -> KernelView {
        match self.current {
            None => self.dispatch(),
            Some(c) => if self.threads[c as int].class == Priority::Preemptive {
                self.yield_now()
            } else {
                self
            },
        }
    }

    /// The interrupt handler returns: a flagged reschedule takes place.
    pub open spec fn isr_exit(self) -> KernelView {
        if self.resched {
            (KernelView { resched: false, ..self }).preempt()
        } else {
            self
        }
    }

    /// Whether `t` is a thread that is blocked.
    pub open spec fn blocked(self, t: ThreadId) -> bool {
        t < self.threads.len() && (self.threads[t as int].state == ThreadState::Waiting
            || self.threads[t as int].state == ThreadState::Sleeping)
    }

    /// The oldest waiter of queue `w` is woken and handed `swap`; nothing
    /// changes if there is no such queue or it is empty.
    pub open spec fn wake_first(self, w: WaitQueueId, swap: Seq<u8>) -> KernelView {
        if w < self.waitqs.len() && self.waitqs[w as int].len() > 0 {
            self.wake(self.waitqs[w as int][0], WakeCause::Event, swap)
        } else {
            self
        }
    }

    /// The priorities along wait queue `w`.
    pub open spec fn waiter_keys(self, w: WaitQueueId) -> Seq<int> {
        Seq::new(self.waitqs[w as int].len(), |i: int| self.prio(self.waitqs[w as int][i]))
    }

    /// The waiter of queue `w` with the highest priority, the oldest of
    /// them, is woken and handed `swap`; nothing changes if there is no such
    /// queue or it is empty.
    pub open spec fn wake_highest(self, w: WaitQueueId, swap: Seq<u8>) -> KernelView {
        if w < self.waitqs.len() && self.waitqs[w as int].len() > 0 {
            self.wake(
                self.waitqs[w as int][first_max(self.waiter_keys(w))],
                WakeCause::Event,
                swap,
            )
        } else {
            self
        }
    }

    /// Every waiter of queue `w` is woken for `cause` and handed `swap`, the
    /// oldest first; `fuel` bounds the number of threads woken.
    pub open spec fn wake_all(self, w: WaitQueueId, cause: WakeCause, swap: Seq<u8>, fuel: nat)
        -> KernelView
        decreases fuel,
    {
        if fuel > 0 && w < self.waitqs.len() && self.waitqs[w as int].len() > 0 {
            self.wake(self.waitqs[w as int][0], cause, swap).wake_all(
                w,
                cause,
                swap,
                (fuel - 1) as nat,
            )
        } else {
            self
        }
    }

    /// A new thread in state `Initialized`, with a join queue of its own;
    /// its handle is the number of threads before.
    pub open spec fn create(self, stack: Seq<u8>, priority: u8, class: Priority, symbol: u8, sp: u16)
        -> KernelView {
        KernelView {
            threads: self.threads.push(
                Tcb {
                    symbol,
                    priority,
                    class,
                    state: ThreadState::Initialized,
                    waiting_on: 0,
                    timed: false,
                    deadline: 0,
                    timer_expired: false,
                    canceled: false,
                    join_queue: self.waitqs.len() as usize,
                    sp,
                },
            ),
            swaps: self.swaps.push(Seq::empty()),
            stacks: self.stacks.push(stack),
            waitqs: self.waitqs.push(Seq::empty()),
            ..self
        }
    }

    /// A new, empty wait queue; its handle is the number of queues before.
    pub open spec fn add_queue(self) -> KernelView {
        KernelView { waitqs: self.waitqs.push(Seq::empty()), ..self }
    }

    /// The running thread terminates: the threads that wait to join it are
    /// woken, and the next ready thread runs.
    pub open spec fn exit(self) -> KernelView {
        let c = self.current.unwrap();
        let a = (KernelView { current: None, ..self }).settle(c, ThreadState::Terminated);
        let j = self.threads[c as int].join_queue;
        a.wake_all(j, WakeCause::Event, Seq::empty(), a.waitqs[j as int].len()).dispatch()
    }

    /// The running thread takes what its last wake left it: the flags and
    /// the value are cleared.
    pub open spec fn collect(self) -> KernelView {
        let c = self.current.unwrap();
        KernelView {
            threads: self.threads.update(
                c as int,
                Tcb { timer_expired: false, canceled: false, ..self.threads[c as int] },
            ),
            swaps: self.swaps.update(c as int, Seq::empty()),
            ..self
        }
    }

    /// The length of a wait of `d` in ticks, rounded down.
    pub open spec fn wait_ticks(self, d: Duration) -> int {
        d.ticks(self.config.tick_period_us as nat) as int
    }

    /// The deadline of a wait of `d`, in ticks from now: none for a wait
    /// without a deadline.
    pub open spec fn deadline_of(self, d: Duration) -> Option<int> {
        if d.forever() {
            None
        } else {
            Some(self.wait_ticks(d))
        }
    }

    /// Whether a wait of `d` is over before it begins: it has a deadline
    /// and lasts less than one tick.
    pub open spec fn no_wait(self, d: Duration) -> bool {
        !d.forever() && self.wait_ticks(d) == 0
    }

    /// The running thread sleeps for `d`: without a deadline it sleeps until
    /// the end of time, for less than a tick it only yields. Nothing happens
    /// if no thread runs.
    pub open spec fn sleep(self, d: Duration) -> KernelView {
        if self.current is None {
            self
        } else if d.forever() {
            self.suspend(None, None)
        } else if self.wait_ticks(d) == 0 {
            self.yield_now()
        } else {
            self.suspend(None, Some(self.wait_ticks(d)))
        }
    }

    /// The running thread sleeps for `ticks` ticks; for none it only yields.
    /// Nothing happens if no thread runs.
    pub open spec fn sleep_ticks(self, ticks: int) -> KernelView {
        if self.current is None {
            self
        } else if ticks == 0 {
            self.yield_now()
        } else {
            self.suspend(None, Some(ticks))
        }
    }

    /// Whether a thread can be created on a stack of `stack_len` bytes: the
    /// stack has the least size and an offset into it fits the saved stack
    /// pointer, and the tables of threads and of wait queues have room.
    pub open spec fn can_create(self, stack_len: nat) -> bool {
        &&& self.config.min_stack_size <= stack_len <= u16::MAX
        &&& self.threads.len() < self.config.max_threads
        &&& self.waitqs.len() < self.config.max_wait_queues
    }

    /// The state with the saved stack pointer of `t` replaced.
    pub open spec fn save_sp(self, t: ThreadId, sp: u16) -> KernelView {
        self.set_thread(t, Tcb { sp, ..self.threads[t as int] })
    }

    /// The state with one byte of the stack of `t` replaced.
    pub open spec fn poke(self, t: ThreadId, offset: int, value: u8) -> KernelView {
        KernelView {
            stacks: self.stacks.update(t as int, self.stacks[t as int].update(offset, value)),
            ..self
        }
    }

    /// How the last wait of the running thread ended: with the value it was
    /// handed, or as timed out, or as canceled.
    pub open spec fn outcome(self) -> Result<Seq<u8>, OsErr> {
        let c = self.current.unwrap();
        if self.threads[c as int].timer_expired {
            Err(OsErr::ETIMEDOUT)
        } else if self.threads[c as int].canceled {
            Err(OsErr::ECANCELED)
        } else {
            Ok(self.swaps[c as int])
        }
    }

    /// The state after a context switch away from `from` with stack pointer
    /// `sp`: the stack pointer is saved in the control block.
    pub open spec fn switched(self, from: Option<ThreadId>, sp: u16) -> KernelView {
        match from {
            Some(f) => if f < self.threads.len() {
                self.save_sp(f, sp)
            } else {
                self
            },
            None => self,
        }
    }

    /// Whether the stack of the thread switched away from is found
    /// overflown: the canaries are checked and its canary is broken.
    pub open spec fn overflown(self, from: Option<ThreadId>) -> bool {
        from matches Some(f) && f < self.threads.len() && self.config.canaries && !canaries_intact(
            self.stacks[f as int],
        )
    }

    /// A number of ticks as a deadline.
    pub open spec fn some_ticks(ticks: Option<u64>) -> Option<int> {
        match ticks {
            Some(k) => Some(k as int),
            None => None,
        }
    }

    /// What an attempt to block the running thread on wait queue `w` returns,
    /// with a deadline `ticks` ticks from now if one is given: `EINVAL` if
    /// there is no such queue, `EBUSY` if no thread runs or the wait would
    /// be over before it begins, else success.
    pub open spec fn wait_result(self, w: WaitQueueId, ticks: Option<int>) -> Result<(), OsErr> {
        if w >= self.waitqs.len() {
            Err(OsErr::EINVAL)
        } else if self.current is None || ticks == Some(0int) {
            Err(OsErr::EBUSY)
        } else {
            Ok(())
        }
    }

    /// The state after an attempt to block the running thread on wait queue
    /// `w`: on success the thread is in the wait queue, has the deadline if
    /// one is given, and the next ready thread runs; a failed attempt
    /// changes nothing.
    pub open spec fn wait(self, w: WaitQueueId, ticks: Option<int>) -> KernelView {
        if self.wait_result(w, ticks) is Ok {
            self.suspend(Some(w), ticks)
        } else {
            self
        }
    }

    /// What an attempt to block the running thread on wait queue `w` for at
    /// most `d` returns.
    pub open spec fn block_result(self, w: WaitQueueId, d: Duration) -> Result<(), OsErr> {
        self.wait_result(w, self.deadline_of(d))
    }

    /// The state after an attempt to block the running thread on wait queue
    /// `w` for at most `d`.
    pub open spec fn block(self, w: WaitQueueId, d: Duration) -> KernelView {
        self.wait(w, self.deadline_of(d))
    }

    /// What the running thread collects, as a result without a value; with
    /// no thread running, `ENOENT`.
    pub open spec fn verdict(self) -> Result<(), OsErr> {
        if self.current is None {
            Err(OsErr::ENOENT)
        } else {
            match self.outcome() {
                Ok(_) => Ok(()),
                Err(e) => Err(e),
            }
        }
    }

    /// The state after the running thread collected the outcome of its last
    /// wait; with no thread running, nothing changes.
    pub open spec fn collected(self) -> KernelView {
        if self.current is None {
            self
        } else {
            self.collect()
        }
    }
}

} // verus!
