//! The kernel: the table of threads, the ready queue, the timeout queue, the
//! wait queues and the tick clock, with the scheduler's operations on them.

use crate::config::Config;
use crate::duration::Duration;
use crate::error::OsErr;
use crate::intrusive::{node_at, Queues, NIL};
use crate::model::{clock_add, ticks_left, KernelView};
use crate::preserve::{
    lemma_add_queue, lemma_collect, lemma_create, lemma_flags, lemma_isr_exit, lemma_tick,
    lemma_unscheduled, lemma_wake, lemma_wake_queue, lemma_waiter_blocked, lemma_yield_with_lock,
};
use crate::queue::{
    first_max, lemma_first_below_unique, lemma_first_max_unique, lemma_position, position,
};
use crate::steps::{
    lemma_advance, lemma_arm, lemma_detach, lemma_dispatch, lemma_enqueue_ready, lemma_enter_queue,
    lemma_limbo_absent, lemma_limbo_update, lemma_set_apart, lemma_settle, lemma_unset_current,
};
use crate::stack::{
    canaries_intact, check_canaries, initial_stack, measure, prepare, usage, FRAME_SIZE,
};
use crate::thread::{
    Priority, Stats, Switch, Tcb, ThreadId, ThreadState, Wait, WaitQueueId, WakeCause,
};
use vstd::prelude::*;

verus! {

/// The views of the rows of a table.
pub open spec fn rows<T>(table: Seq<Vec<T>>) -> Seq<Seq<T>> {
    Seq::new(table.len(), |i: int| table[i]@)
}

/// The priority of the main thread and of a preemptive thread that is
/// spawned.
pub const DEFAULT_PRIORITY: u8 = 1;

/// The priority of a cooperative thread that is spawned: one level above a
/// preemptive one, so that a cooperative thread is served as soon as it
/// wakes.
pub const COOPERATIVE_PRIORITY: u8 = 2;

/// The name of the main thread.
pub const MAIN_SYMBOL: u8 = 77;

/// The ticks from `now` until the clock next reads `deadline`.
pub fn ticks_until(deadline: u64, now: u64) -> (left: u64)
    ensures
        left == ticks_left(deadline, now),
{
    if deadline >= now {
        deadline - now
    } else {
        (u64::MAX - now) + deadline + 1
    }
}

/// What the clock reads `ticks` ticks after `now`.
pub fn clock_after(now: u64, ticks: u64) -> (then: u64)
    ensures
        then == clock_add(now, ticks as int),
{
    if ticks > u64::MAX - now {
        ticks - (u64::MAX - now) - 1
    } else {
        now + ticks
    }
}

/// A copy of `bytes`.
pub fn copy_bytes(bytes: &Vec<u8>) -> (copy: Vec<u8>)
    ensures
        copy@ == bytes@,
{
    let mut copy: Vec<u8> = Vec::new();
    let mut i: usize = 0;
    while i < bytes.len()
        invariant
            i <= bytes.len(),
            copy@ == bytes@.take(i as int),
        decreases bytes.len() - i,
    {
        copy.push(bytes[i]);
        assert(bytes@.take(i + 1) =~= bytes@.take(i as int).push(bytes@[i as int]));
        i = i + 1;
    }
    assert(bytes@.take(bytes@.len() as int) =~= bytes@);
    copy
}

/// The guard that lets the kernel be initialized once.
pub struct InitGuard {
    initialized: bool,
}

impl InitGuard {
    /// Whether a kernel was initialized under this guard.
    pub closed spec fn used(&self) -> bool {
        self.initialized
    }

    /// A guard under which no kernel was initialized yet.
    pub fn new() -> (g: InitGuard)
        ensures
            !g.used(),
    {
        InitGuard { initialized: false }
    }

    /// Tests whether a kernel was initialized under this guard.
    pub fn is_used(&self) -> (b: bool)
        ensures
            b == self.used(),
    {
        self.initialized
    }
}

/// What the kernel is told when it is initialized.
#[derive(Debug, Clone, Copy)]
pub struct KernelParams {
    /// The baud rate the serial line is to be opened with, if it is to be opened.
    pub serial_baud: Option<u32>,
}

impl Default for KernelParams {
    fn default() -> (p: KernelParams)
        ensures
            p.serial_baud == Some(115200u32),
    {
        KernelParams { serial_baud: Some(115200) }
    }
}

/// The kernel.
pub struct Kernel {
    params: KernelParams,
    config: Config,
    now: u64,
    current: Option<ThreadId>,
    threads: Vec<Tcb>,
    swaps: Vec<Vec<u8>>,
    stacks: Vec<Vec<u8>>,
    run: Queues,
    timers: Queues,
    resched: bool,
    irq_locked: bool,
}

impl Kernel {
    /// The state of the kernel.
    pub closed spec fn view(&self) -> KernelView {
        KernelView {
            config: self.config,
            now: self.now,
            current: self.current,
            threads: self.threads@,
            swaps: rows(self.swaps@),
            stacks: rows(self.stacks@),
            ready: self.run@[0],
            timeouts: self.timers@[0],
            waitqs: self.run@.subrange(1, self.run@.len() as int),
            resched: self.resched,
            irq_locked: self.irq_locked,
        }
    }

    /// The parameters the kernel was initialized with.
    pub closed spec fn params(&self) -> KernelParams {
        self.params
    }

    /// The queues are linked as the state says. The ready queue and the
    /// wait queues are one family, threaded through one link per thread; the
    /// timeout queue is threaded through a second.
    pub closed spec fn linked(&self) -> bool {
        &&& self.run.wf()
        &&& self.timers.wf()
        &&& self.run@.len() >= 1
        &&& self.timers@.len() == 1
        &&& self.run.nodes() == self.threads@.len()
        &&& self.timers.nodes() == self.threads@.len()
    }

    /// The kernel's invariant holds.
    pub open spec fn wf(&self) -> bool {
        self@.wf() && self.linked()
    }

    /// A thread set apart has its link of the ready and wait queues free.
    proof fn lemma_run_free(&self, t: ThreadId)
        requires
            self@.inv(Some(t)),
            self.linked(),
        ensures
            self.run.free(t),
            t < self.run.nodes(),
    {
        lemma_limbo_absent(self@, t);
        assert forall|q: int| 0 <= q < self.run@.len() implies !(#[trigger] self.run@[q]).contains(
            t,
        ) by {
            if q >= 1 {
                assert(self@.waitqs[q - 1] == self.run@[q]);
            }
        }
    }

    /// A thread set apart without a deadline has its link of the timeout
    /// queue free.
    proof fn lemma_timers_free(&self, t: ThreadId)
        requires
            self@.inv(Some(t)),
            self.linked(),
            !self@.threads[t as int].timed,
        ensures
            self.timers.free(t),
            t < self.timers.nodes(),
    {
        lemma_limbo_absent(self@, t);
    }

    /// The state of a kernel that was just initialized: the main thread
    /// runs, and its join queue is the only wait queue.
    pub open spec fn boot(config: Config) -> KernelView {
        KernelView {
            config,
            now: 0,
            current: Some(0usize),
            threads: seq![
                Tcb {
                    symbol: MAIN_SYMBOL,
                    priority: DEFAULT_PRIORITY,
                    class: Priority::Preemptive,
                    state: ThreadState::Running,
                    waiting_on: 0,
                    timed: false,
                    deadline: 0,
                    timer_expired: false,
                    canceled: false,
                    join_queue: 0,
                    sp: 0,
                },
            ],
            swaps: seq![Seq::empty()],
            stacks: seq![Seq::empty()],
            ready: Seq::empty(),
            timeouts: Seq::empty(),
            waitqs: seq![Seq::empty()],
            resched: false,
            irq_locked: false,
        }
    }

    /// A freshly booted kernel satisfies the invariant.
    pub proof fn lemma_boot(config: Config)
        requires
            config.valid(),
        ensures
            Self::boot(config).wf(),
    {
        let v = Self::boot(config);
        assert(v.ready_keys() =~= Seq::empty());
        assert(v.timeout_keys() =~= Seq::empty());
        assert(v.inv_tables());
        assert(v.inv_current(None));
        assert(v.inv_ready(None));
        assert(v.inv_waitqs(None));
        assert(v.inv_timeouts(None));
    }

    /// Initializes the kernel with the given parameters and options. Fails
    /// if a kernel was initialized under `guard` before, or if the options
    /// cannot be used; the guard is used up only by a success.
    pub fn init_with_config(guard: &mut InitGuard, params: KernelParams, config: Config) -> (r:
        Option<Kernel>)
        ensures
            r is Some <==> !old(guard).used() && config.valid(),
            final(guard).used() == (old(guard).used() || config.valid()),
            r matches Some(k) ==> k.wf() && k@ == Self::boot(config) && k.params() == params,
    {
        if guard.initialized || !config.is_valid() {
            return None;
        }
        guard.initialized = true;
        let main_thread = Tcb {
            symbol: MAIN_SYMBOL,
            priority: DEFAULT_PRIORITY,
            class: Priority::Preemptive,
            state: ThreadState::Running,
            waiting_on: 0,
            timed: false,
            deadline: 0,
            timer_expired: false,
            canceled: false,
            join_queue: 0,
            sp: 0,
        };
        let mut threads: Vec<Tcb> = Vec::new();
        threads.push(main_thread);
        let mut swaps: Vec<Vec<u8>> = Vec::new();
        swaps.push(Vec::new());
        let mut stacks: Vec<Vec<u8>> = Vec::new();
        stacks.push(Vec::new());
        let mut run = Queues::new();
        run.add_queue();
        run.add_queue();
        run.add_node();
        let mut timers = Queues::new();
        timers.add_queue();
        timers.add_node();
        let k = Kernel {
            params,
            config,
            now: 0,
            current: Some(0),
            threads,
            swaps,
            stacks,
            run,
            timers,
            resched: false,
            irq_locked: false,
        };
        proof {
            Self::lemma_boot(config);
            assert(k@ =~~= Self::boot(config));
        }
        Some(k)
    }

    /// Initializes the kernel with the given parameters and the default
    /// options. Fails if a kernel was initialized under `guard` before.
    pub fn init_with_params(guard: &mut InitGuard, opts: KernelParams) -> (r: Option<Kernel>)
        ensures
            r is Some <==> !old(guard).used(),
            final(guard).used(),
            r matches Some(k) ==> k.wf() && k@ == Self::boot(Config::spec_default()) && k.params()
                == opts,
    {
        Self::init_with_config(guard, opts, Config::new())
    }

    /// Initializes the kernel with the default parameters and options.
    /// Fails if a kernel was initialized under `guard` before.
    pub fn init(guard: &mut InitGuard) -> (r: Option<Kernel>)
        ensures
            r is Some <==> !old(guard).used(),
            final(guard).used(),
            r matches Some(k) ==> k.wf() && k@ == Self::boot(Config::spec_default())
                && k.params().serial_baud == Some(115200u32),
    {
        Self::init_with_params(guard, KernelParams::default())
    }

    /// The baud rate the serial line is to be opened with, if any.
    pub fn serial_baud(&self) -> (baud: Option<u32>)
        ensures
            baud == self.params().serial_baud,
    {
        self.params.serial_baud
    }

    /// The options the kernel was made with.
    pub fn config(&self) -> (c: Config)
        ensures
            c == self@.config,
    {
        self.config
    }

    /// The running thread, if any.
    pub fn current(&self) -> (c: Option<ThreadId>)
        ensures
            c == self@.current,
    {
        self.current
    }

    /// The tick clock.
    pub fn ticks_now(&self) -> (now: u64)
        ensures
            now == self@.now,
    {
        self.now
    }

    /// The number of threads ever created, the main thread included.
    pub fn thread_count(&self) -> (n: usize)
        ensures
            n == self@.threads.len(),
    {
        self.threads.len()
    }

    /// The control block of thread `t`, if there is such a thread.
    pub fn thread(&self, t: ThreadId) -> (r: Option<Tcb>)
        ensures
            r == if t < self@.threads.len() {
                Some(self@.threads[t as int])
            } else {
                None
            },
    {
        if t < self.threads.len() {
            Some(self.threads[t])
        } else {
            None
        }
    }

    /// The ready queue, the thread to run next in front.
    pub fn ready_queue(&self) -> (q: Vec<ThreadId>)
        requires
            self.wf(),
        ensures
            q@ == self@.ready,
    {
        self.run.elements(0)
    }

    /// The timeout queue, the nearest deadline in front.
    pub fn timeout_queue(&self) -> (q: Vec<ThreadId>)
        requires
            self.wf(),
        ensures
            q@ == self@.timeouts,
    {
        self.timers.elements(0)
    }

    /// Wait queue `w`, the oldest waiter in front; `None` if there is no
    /// such queue.
    pub fn wait_queue(&self, w: WaitQueueId) -> (r: Option<Vec<ThreadId>>)
        requires
            self.wf(),
        ensures
            r is Some <==> w < self@.waitqs.len(),
            r matches Some(q) ==> q@ == self@.waitqs[w as int],
    {
        if w < self.run.count() - 1 {
            Some(self.run.elements(w + 1))
        } else {
            None
        }
    }

    /// The stack region of thread `t`; `None` if there is no such thread.
    pub fn stack(&self, t: ThreadId) -> (r: Option<Vec<u8>>)
        requires
            self.wf(),
        ensures
            r is Some <==> t < self@.threads.len(),
            r matches Some(s) ==> s@ == self@.stacks[t as int],
    {
        if t < self.threads.len() {
            Some(copy_bytes(&self.stacks[t]))
        } else {
            None
        }
    }

    /// Whether a reschedule is flagged for the end of the interrupt handler.
    pub fn reschedule_pending(&self) -> (b: bool)
        ensures
            b == self@.resched,
    {
        self.resched
    }

    /// The thread that runs next when the processor is given up: the head
    /// of the ready queue. No ready thread has a higher priority, and none
    /// of the same priority has been ready for longer.
    pub fn select_next(&self) -> (r: Option<ThreadId>)
        requires
            self.wf(),
        ensures
            r == if self@.ready.len() > 0 {
                Some(self@.ready[0])
            } else {
                None
            },
            r matches Some(h) ==> h < self@.threads.len() && self@.threads[h as int].state
                == ThreadState::Ready && forall|t: ThreadId|
                t < self@.threads.len() && (#[trigger] self@.threads[t as int]).state
                    == ThreadState::Ready ==> self@.prio(t) <= self@.prio(h),
    {
        let h = self.run.first(0);
        if h != NIL {
            proof {
                let v = self@;
                if v.ready.len() == 0 {
                    assert(false);
                }
                let h = v.ready[0];
                assert forall|t: ThreadId|
                    t < v.threads.len() && (#[trigger] v.threads[t as int]).state
                        == ThreadState::Ready implies v.prio(t) <= v.prio(h) by {
                    assert(v.ready.contains(t));
                    let i = choose|i: int| 0 <= i < v.ready.len() && v.ready[i] == t;
                    assert(v.ready_keys()[0] >= v.ready_keys()[i]);
                }
            }
            Some(h)
        } else {
            proof {
                if self@.ready.len() > 0 {
                    self.run.lemma_members(0, 0);
                }
            }
            None
        }
    }

    /// Thread `t`, set apart and without a deadline, becomes ready.
    fn do_enqueue_ready(&mut self, t: ThreadId)
        requires
            old(self)@.inv(Some(t)),
            old(self).linked(),
            !old(self)@.threads[t as int].timed,
        ensures
            final(self)@ == old(self)@.enqueue_ready(t),
            final(self)@.inv(None),
            final(self).linked(),
            final(self).params() == old(self).params(),
    {
        let p: u8 = self.threads[t].priority;
        let ghost keys = self@.ready_keys();
        let ghost ready = self@.ready;
        let mut cur: usize = self.run.first(0);
        let ghost mut i: int = 0;
        while cur != NIL && self.threads[cur].priority >= p
            invariant
                0 <= i <= ready.len(),
                *self == *old(self),
                self@.inv(Some(t)),
                self.linked(),
                ready == self@.ready,
                keys == self@.ready_keys(),
                cur == node_at(ready, i),
                forall|k: int| 0 <= k < i ==> keys[k] >= p,
            decreases ready.len() - i,
        {
            assert(ready[i] < self@.threads.len());
            cur = self.run.next(0, Ghost(i), cur);
            proof {
                i = i + 1;
            }
        }
        proof {
            if i < ready.len() {
                self.run.lemma_members(0, i);
                assert(ready[i] < self@.threads.len());
                assert(keys[i] < p);
            }
            lemma_first_below_unique(keys, p as int, i);
            lemma_enqueue_ready(self@, t);
            self.lemma_run_free(t);
        }
        self.run.insert(0, Ghost(i), cur, t);
        let mut tcb = self.threads[t];
        tcb.state = ThreadState::Ready;
        self.threads.set(t, tcb);
        proof {
            assert(self@ =~~= old(self)@.enqueue_ready(t));
        }
    }

    /// If no thread runs and one is ready, the head of the ready queue runs.
    fn do_dispatch(&mut self)
        requires
            old(self)@.inv(None),
            old(self).linked(),
        ensures
            final(self)@ == old(self)@.dispatch(),
            final(self)@.inv(None),
            final(self).linked(),
            final(self).params() == old(self).params(),
    {
        proof {
            lemma_dispatch(self@, None);
        }
        if self.current.is_none() && self.run.len(0) > 0 {
            let h = self.run.first(0);
            self.run.remove(0, Ghost(0), h);
            assert(h == old(self)@.ready[0]);
            assert(h < self.threads.len());
            let mut tcb = self.threads[h];
            tcb.state = ThreadState::Running;
            self.threads.set(h, tcb);
            self.current = Some(h);
            proof {
                assert(self@ =~~= old(self)@.dispatch());
            }
        }
    }

    /// The running thread gives way: it goes to the ready queue behind the
    /// threads of its priority, and the head of the ready queue runs.
    pub fn yield_now(&mut self)
        requires
            old(self).wf(),
        ensures
            final(self).wf(),
            final(self)@ == old(self)@.yield_now(),
            final(self).params() == old(self).params(),
    {
        match self.current {
            Some(c) => {
                proof {
                    lemma_unset_current(self@);
                }
                self.current = None;
                assert(self@ =~~= (KernelView { current: None, ..old(self)@ }));
                self.do_enqueue_ready(c);
                self.do_dispatch();
            },
            None => {
                self.do_dispatch();
            },
        }
    }

    /// Thread `t`, set apart and without a deadline, gets a deadline `ticks`
    /// ticks from now.
    fn do_arm(&mut self, t: ThreadId, ticks: u64)
        requires
            old(self)@.inv(Some(t)),
            old(self).linked(),
            !old(self)@.threads[t as int].timed,
            ticks >= 1,
        ensures
            final(self)@ == old(self)@.arm(t, ticks as int),
            final(self)@.inv(Some(t)),
            final(self).linked(),
            final(self).params() == old(self).params(),
    {
        let ghost keys = self@.timeout_keys();
        let ghost timeouts = self@.timeouts;
        let mut cur: usize = self.timers.first(0);
        let ghost mut i: int = 0;
        while cur != NIL && ticks_until(self.threads[cur].deadline, self.now) <= ticks
            invariant
                0 <= i <= timeouts.len(),
                *self == *old(self),
                self@.inv(Some(t)),
                self.linked(),
                timeouts == self@.timeouts,
                keys == self@.timeout_keys(),
                cur == node_at(timeouts, i),
                forall|k: int| 0 <= k < i ==> keys[k] >= -(ticks as int),
            decreases timeouts.len() - i,
        {
            assert(timeouts[i] < self@.threads.len());
            cur = self.timers.next(0, Ghost(i), cur);
            proof {
                i = i + 1;
            }
        }
        proof {
            if i < timeouts.len() {
                self.timers.lemma_members(0, i);
                assert(timeouts[i] < self@.threads.len());
                assert(keys[i] < -(ticks as int));
            }
            lemma_first_below_unique(keys, -(ticks as int), i);
            lemma_arm(self@, t, ticks as int);
            self.lemma_timers_free(t);
        }
        self.timers.insert(0, Ghost(i), cur, t);
        let mut tcb = self.threads[t];
        tcb.timed = true;
        tcb.deadline = clock_after(self.now, ticks);
        self.threads.set(t, tcb);
        proof {
            assert(self@ =~~= old(self)@.arm(t, ticks as int));
        }
    }

    /// The blocked thread `t` leaves its wait queue, if it is in one.
    fn do_leave_queue(&mut self, t: ThreadId)
        requires
            old(self).wf(),
            old(self)@.blocked(t),
        ensures
            final(self)@ == old(self)@.leave_queue(t),
            final(self).linked(),
            final(self).params() == old(self).params(),
    {
        let ghost v0 = self@;
        let tcb0 = self.threads[t];
        if tcb0.state == ThreadState::Waiting {
            let w = tcb0.waiting_on;
            // the ready queue comes first in the family: wait queue `w` is queue `w + 1`
            let family: usize = self.run.count();
            proof {
                assert(w + 1 < family);
                assert(v0.waitqs[w as int].contains(t));
                lemma_position(v0.waitqs[w as int], t);
                assert(v0.waitqs[w as int] == self.run@[w + 1]);
            }
            self.run.remove(w + 1, Ghost(position(v0.waitqs[w as int], t)), t);
            assert(self@.waitqs =~= v0.leave_queue(t).waitqs);
        }
        assert(self@ =~~= v0.leave_queue(t));
    }

    /// Thread `t` loses its deadline, if it has one.
    fn do_disarm(&mut self, t: ThreadId)
        requires
            old(self).linked(),
            t < old(self)@.threads.len(),
            old(self)@.threads[t as int].timed <==> old(self)@.timeouts.contains(t),
        ensures
            final(self)@ == old(self)@.disarm(t),
            final(self).linked(),
            final(self).params() == old(self).params(),
    {
        let ghost v0 = self@;
        let mut tcb = self.threads[t];
        if tcb.timed {
            proof {
                lemma_position(v0.timeouts, t);
            }
            self.timers.remove(0, Ghost(position(v0.timeouts, t)), t);
        }
        tcb.timed = false;
        self.threads.set(t, tcb);
        assert(self@ =~~= v0.disarm(t));
    }

    /// The blocked thread `t` is woken.
    fn do_wake(&mut self, t: ThreadId, cause: WakeCause, swap: Vec<u8>)
        requires
            old(self).wf(),
            old(self)@.blocked(t),
        ensures
            final(self)@ == old(self)@.wake(t, cause, swap@),
            final(self).wf(),
            final(self).params() == old(self).params(),
    {
        let ghost v0 = self@;
        proof {
            lemma_detach(v0, t);
            lemma_wake(v0, t, cause, swap@);
            if v0.timeouts.contains(t) {
                let i = choose|i: int| 0 <= i < v0.timeouts.len() && v0.timeouts[i] == t;
                assert(v0.threads[v0.timeouts[i] as int].timed);
            }
        }
        self.do_leave_queue(t);
        self.do_disarm(t);
        let mut tcb = self.threads[t];
        tcb.timer_expired = cause == WakeCause::Expired;
        tcb.canceled = cause == WakeCause::Canceled;
        self.threads.set(t, tcb);
        self.swaps.set(t, swap);
        proof {
            let a = v0.leave_queue(t).disarm(t);
            let tcb_spec = Tcb {
                timer_expired: cause == WakeCause::Expired,
                canceled: cause == WakeCause::Canceled,
                ..a.threads[t as int]
            };
            lemma_limbo_update(a, t, tcb_spec, swap@);
            assert(self@ =~~= (KernelView {
                threads: a.threads.update(t as int, tcb_spec),
                swaps: a.swaps.update(t as int, swap@),
                ..a
            }));
        }
        self.do_enqueue_ready(t);
    }

    /// The running thread blocks, and the next ready thread runs.
    fn do_suspend(&mut self, queue: Option<WaitQueueId>, ticks: Option<u64>)
        requires
            old(self).wf(),
            old(self)@.current is Some,
            queue matches Some(w) ==> w < old(self)@.waitqs.len(),
            ticks matches Some(k) ==> k >= 1,
        ensures
            final(self)@ == old(self)@.suspend(
                queue,
                match ticks {
                    Some(k) => Some(k as int),
                    None => None,
                },
            ),
            final(self).wf(),
            final(self).params() == old(self).params(),
    {
        let ghost v0 = self@;
        let c = self.current.unwrap();
        proof {
            lemma_unset_current(v0);
            let u = KernelView { current: None, ..v0 };
            let tcb_spec = Tcb { timer_expired: false, canceled: false, ..v0.threads[c as int] };
            lemma_limbo_update(u, c, tcb_spec, Seq::empty());
        }
        self.current = None;
        let mut tcb = self.threads[c];
        tcb.timer_expired = false;
        tcb.canceled = false;
        self.threads.set(c, tcb);
        self.swaps.set(c, Vec::new());
        let ghost a = KernelView {
            current: None,
            threads: v0.threads.update(
                c as int,
                Tcb { timer_expired: false, canceled: false, ..v0.threads[c as int] },
            ),
            swaps: v0.swaps.update(c as int, Seq::empty()),
            ..v0
        };
        assert(self@ =~~= a);
        match ticks {
            Some(k) => {
                self.do_arm(c, k);
            },
            None => {},
        }
        let ghost b = self@;
        match queue {
            Some(w) => {
                proof {
                    lemma_enter_queue(b, c, w);
                    self.lemma_run_free(c);
                    assert(b.waitqs[w as int] == self.run@[w + 1]);
                    if b.waitqs[w as int].len() > 0 {
                        self.run.lemma_members(w + 1, 0);
                    }
                }
                let mut tcb = self.threads[c];
                tcb.state = ThreadState::Waiting;
                tcb.waiting_on = w;
                self.threads.set(c, tcb);
                let family: usize = self.run.count();
                assert(w + 1 < family);
                self.run.insert(w + 1, Ghost(b.waitqs[w as int].len() as int), NIL, c);
                proof {
                    let q = b.waitqs[w as int];
                    assert(q.insert(q.len() as int, c) =~= q.push(c));
                    assert(self@ =~~= b.enter_queue(c, w));
                }
            },
            None => {
                proof {
                    lemma_settle(b, c, ThreadState::Sleeping);
                }
                let mut tcb = self.threads[c];
                tcb.state = ThreadState::Sleeping;
                self.threads.set(c, tcb);
                assert(self@ =~~= b.settle(c, ThreadState::Sleeping));
            },
        }
        self.do_dispatch();
    }

    /// Blocks the running thread on wait queue `w`, until a deadline `ticks`
    /// ticks from now if one is given; this is how every blocking operation
    /// waits. A wait of no ticks fails as busy at once and queues nothing,
    /// and so does a wait with no thread running. Otherwise the thread
    /// enters the wait queue at the back, enters the timeout queue if it has
    /// a deadline, and the next ready thread runs; the wait's outcome is
    /// collected when the thread runs again.
    pub fn block_ticks(&mut self, w: WaitQueueId, ticks: Option<u64>) -> (r: Result<(), OsErr>)
        requires
            old(self).wf(),
        ensures
            final(self).wf(),
            final(self).params() == old(self).params(),
            r == old(self)@.wait_result(w, KernelView::some_ticks(ticks)),
            final(self)@ == old(self)@.wait(w, KernelView::some_ticks(ticks)),
    {
        if w >= self.run.count() - 1 {
            return Err(OsErr::EINVAL);
        }
        if self.current.is_none() {
            return Err(OsErr::EBUSY);
        }
        match ticks {
            Some(k) => {
                if k == 0 {
                    return Err(OsErr::EBUSY);
                }
            },
            None => {},
        }
        self.do_suspend(Some(w), ticks);
        Ok(())
    }

    /// Blocks the running thread on wait queue `w` for at most `d`: without
    /// a deadline if `d` sets none, else until the deadline that `d` comes
    /// to in ticks.
    pub fn block_on(&mut self, w: WaitQueueId, d: Duration) -> (r: Result<(), OsErr>)
        requires
            old(self).wf(),
        ensures
            final(self).wf(),
            final(self).params() == old(self).params(),
            r == old(self)@.block_result(w, d),
            final(self)@ == old(self)@.block(w, d),
    {
        if d.is_forever() {
            self.block_ticks(w, None)
        } else {
            let ticks: u64 = d.as_ticks(self.config.tick_period_us);
            self.block_ticks(w, Some(ticks))
        }
    }

    /// Puts the running thread to sleep for `d`. Without a deadline the
    /// thread sleeps on; for less than a tick it only yields.
    pub fn sleep(&mut self, d: Duration)
        requires
            old(self).wf(),
        ensures
            final(self).wf(),
            final(self).params() == old(self).params(),
            final(self)@ == old(self)@.sleep(d),
    {
        if self.current.is_none() {
            return ;
        }
        if d.is_forever() {
            self.do_suspend(None, None);
            return ;
        }
        let ticks: u64 = d.as_ticks(self.config.tick_period_us);
        if ticks == 0 {
            self.yield_now();
        } else {
            self.do_suspend(None, Some(ticks));
        }
    }

    /// Puts the running thread to sleep for `ticks` ticks; for none it only
    /// yields.
    pub fn sleep_ticks(&mut self, ticks: u64)
        requires
            old(self).wf(),
        ensures
            final(self).wf(),
            final(self).params() == old(self).params(),
            final(self)@ == old(self)@.sleep_ticks(ticks as int),
    {
        if self.current.is_none() {
            return ;
        }
        if ticks == 0 {
            self.yield_now();
        } else {
            self.do_suspend(None, Some(ticks));
        }
    }

    /// Tests whether the processor should change hands.
    fn is_outranked(&self) -> (b: bool)
        requires
            self.wf(),
        ensures
            b == self@.outranked(),
    {
        if self.run.len(0) == 0 {
            return false;
        }
        let h = self.run.first(0);
        assert(self@.ready[0] < self@.threads.len());
        match self.current {
            None => true,
            Some(c) => {
                let mine = self.threads[c];
                let theirs = self.threads[h];
                let slice_due = self.config.time_slice > 0 && self.now % self.config.time_slice
                    == 0;
                mine.class == Priority::Preemptive && (theirs.priority > mine.priority || (
                slice_due && theirs.priority == mine.priority))
            },
        }
    }

    /// The tick interrupt: the clock advances by one, every thread whose
    /// deadline has come is taken from the timeout queue and from the wait
    /// queue it is in, marked as expired and made ready, and a reschedule is
    /// flagged if the processor should change hands. Returns whether a
    /// reschedule is flagged. With interrupts disabled the tick is not taken.
    pub fn tick(&mut self) -> (resched: bool)
        requires
            old(self).wf(),
        ensures
            final(self).wf(),
            final(self).params() == old(self).params(),
            final(self)@ == old(self)@.tick(),
            resched == final(self)@.resched,
    {
        if self.irq_locked {
            return self.resched;
        }
        let ghost v0 = self@;
        let ghost mut fuel: nat = v0.timeouts.len();
        let next: u64 = clock_after(self.now, 1);
        let mut head: usize = self.timers.first(0);
        while head != NIL && self.threads[head].deadline == next
            invariant
                self.wf(),
                head == node_at(self@.timeouts, 0),
                self.params() == old(self).params(),
                self@.now == v0.now,
                self@.irq_locked == v0.irq_locked,
                next == clock_add(v0.now, 1),
                fuel >= self@.timeouts.len(),
                v0.expire(v0.timeouts.len()) == self@.expire(fuel),
            decreases self@.timeouts.len(),
        {
            let t = head;
            proof {
                let v = self@;
                assert(v.timeouts[0] < v.threads.len());
                assert(v.threads[v.timeouts[0] as int].timed);
                assert(v.due());
                lemma_wake(v, t, WakeCause::Expired, Seq::empty());
            }
            self.do_wake(t, WakeCause::Expired, Vec::new());
            head = self.timers.first(0);
            proof {
                fuel = (fuel - 1) as nat;
            }
        }
        proof {
            let v = self@;
            if v.timeouts.len() > 0 {
                assert(v.timeouts[0] < v.threads.len());
                self.timers.lemma_members(0, 0);
            }
            assert(!v.due());
            lemma_advance(v);
            lemma_tick(v0);
        }
        self.now = next;
        assert(self@ =~~= (KernelView { now: clock_add(v0.now, 1), ..v0.expire(v0.timeouts.len()) }));
        let out = self.is_outranked();
        self.resched = self.resched || out;
        assert(self@ =~~= v0.tick());
        self.resched
    }

    /// The end of an interrupt handler: if a reschedule is flagged, the flag
    /// is cleared, a running preemptive thread gives way, and an idle
    /// processor takes the head of the ready queue. A running cooperative
    /// thread runs on.
    pub fn isr_exit(&mut self)
        requires
            old(self).wf(),
        ensures
            final(self).wf(),
            final(self).params() == old(self).params(),
            final(self)@ == old(self)@.isr_exit(),
    {
        if !self.resched {
            return ;
        }
        proof {
            lemma_flags(self@, false, self@.irq_locked);
            lemma_isr_exit(self@);
        }
        self.resched = false;
        assert(self@ =~~= (KernelView { resched: false, ..old(self)@ }));
        match self.current {
            None => {
                self.do_dispatch();
            },
            Some(c) => {
                if self.threads[c].class == Priority::Preemptive {
                    self.yield_now();
                }
            },
        }
    }

    /// The number of wait queues.
    pub fn queue_count(&self) -> (n: usize)
        requires
            self.wf(),
        ensures
            n == self@.waitqs.len(),
    {
        self.run.count() - 1
    }

    /// The number of threads that wait in queue `w`; zero if there is no
    /// such queue.
    pub fn waiters(&self, w: WaitQueueId) -> (n: usize)
        requires
            self.wf(),
        ensures
            n == if w < self@.waitqs.len() {
                self@.waitqs[w as int].len()
            } else {
                0
            },
    {
        if w < self.run.count() - 1 {
            self.run.len(w + 1)
        } else {
            0
        }
    }

    /// Makes a new, empty wait queue and returns its handle. Fails with
    /// `EINVAL` if the table of wait queues is full.
    pub fn add_queue(&mut self) -> (r: Result<WaitQueueId, OsErr>)
        requires
            old(self).wf(),
        ensures
            final(self).wf(),
            final(self).params() == old(self).params(),
            old(self)@.waitqs.len() < old(self)@.config.max_wait_queues ==> r == Ok::<
                WaitQueueId,
                OsErr,
            >(old(self)@.waitqs.len() as usize) && final(self)@ == old(self)@.add_queue(),
            old(self)@.waitqs.len() >= old(self)@.config.max_wait_queues ==> r == Err::<
                WaitQueueId,
                OsErr,
            >(OsErr::EINVAL) && final(self)@ == old(self)@,
    {
        if self.run.count() - 1 >= self.config.max_wait_queues {
            return Err(OsErr::EINVAL);
        }
        proof {
            lemma_add_queue(self@);
        }
        let w = self.run.count() - 1;
        self.run.add_queue();
        assert(self@ =~~= old(self)@.add_queue());
        Ok(w)
    }

    /// Wakes the oldest waiter of queue `w` and hands it `swap`. Returns the
    /// thread woken; `None`, with nothing changed, if there is no such queue
    /// or nobody waits in it. The caller runs on.
    pub fn wake_first(&mut self, w: WaitQueueId, swap: Vec<u8>) -> (r: Option<ThreadId>)
        requires
            old(self).wf(),
        ensures
            final(self).wf(),
            final(self).params() == old(self).params(),
            final(self)@ == old(self)@.wake_first(w, swap@),
            r == if w < old(self)@.waitqs.len() && old(self)@.waitqs[w as int].len() > 0 {
                Some(old(self)@.waitqs[w as int][0])
            } else {
                None
            },
    {
        if w >= self.run.count() - 1 || self.run.len(w + 1) == 0 {
            return None;
        }
        let t = self.run.first(w + 1);
        proof {
            lemma_waiter_blocked(self@, w, 0);
        }
        self.do_wake(t, WakeCause::Event, swap);
        Some(t)
    }

    /// Wakes the waiter of queue `w` with the highest priority, the oldest
    /// of them, and hands it `swap`. Returns the thread woken; `None`, with
    /// nothing changed, if there is no such queue or nobody waits in it.
    pub fn wake_highest(&mut self, w: WaitQueueId, swap: Vec<u8>) -> (r: Option<ThreadId>)
        requires
            old(self).wf(),
        ensures
            final(self).wf(),
            final(self).params() == old(self).params(),
            final(self)@ == old(self)@.wake_highest(w, swap@),
            r == if w < old(self)@.waitqs.len() && old(self)@.waitqs[w as int].len() > 0 {
                Some(old(self)@.waitqs[w as int][first_max(old(self)@.waiter_keys(w))])
            } else {
                None
            },
    {
        if w >= self.run.count() - 1 || self.run.len(w + 1) == 0 {
            return None;
        }
        let ghost keys = self@.waiter_keys(w);
        let ghost queue = self@.waitqs[w as int];
        let q: usize = w + 1;
        let mut best: usize = self.run.first(q);
        let ghost mut at: int = 0;
        proof {
            lemma_waiter_blocked(self@, w, 0);
        }
        let mut cur: usize = self.run.next(q, Ghost(0), best);
        let ghost mut i: int = 1;
        while cur != NIL
            invariant
                1 <= i <= queue.len(),
                0 <= at < i,
                *self == *old(self),
                self.wf(),
                q == w + 1,
                w < self@.waitqs.len(),
                queue == self@.waitqs[w as int],
                queue == self.run@[w + 1],
                keys == self@.waiter_keys(w),
                best == queue[at],
                cur == node_at(queue, i),
                forall|k: int| 0 <= k < i ==> #[trigger] keys[k] <= keys[at],
                forall|k: int| 0 <= k < at ==> #[trigger] keys[k] < keys[at],
            decreases queue.len() - i,
        {
            proof {
                lemma_waiter_blocked(self@, w, i);
                lemma_waiter_blocked(self@, w, at);
            }
            if self.threads[cur].priority > self.threads[best].priority {
                best = cur;
                proof {
                    at = i;
                }
            }
            cur = self.run.next(q, Ghost(i), cur);
            proof {
                i = i + 1;
            }
        }
        proof {
            if i < queue.len() {
                self.run.lemma_members(w + 1, i);
            }
            lemma_first_max_unique(keys, at);
            lemma_waiter_blocked(self@, w, at);
        }
        let t = best;
        self.do_wake(t, WakeCause::Event, swap);
        Some(t)
    }

    /// Wakes every waiter of queue `w` for `cause`, the oldest first, and
    /// hands each a copy of `swap`. Returns the number of threads woken;
    /// zero, with nothing changed, if there is no such queue.
    pub fn wake_all(&mut self, w: WaitQueueId, cause: WakeCause, swap: &Vec<u8>) -> (woken: usize)
        requires
            old(self).wf(),
        ensures
            final(self).wf(),
            final(self).params() == old(self).params(),
            final(self)@ == old(self)@.wake_all(
                w,
                cause,
                swap@,
                if w < old(self)@.waitqs.len() {
                    old(self)@.waitqs[w as int].len()
                } else {
                    0
                },
            ),
            woken == if w < old(self)@.waitqs.len() {
                old(self)@.waitqs[w as int].len()
            } else {
                0
            },
            w < old(self)@.waitqs.len() ==> final(self)@.waitqs[w as int].len() == 0,
    {
        if w >= self.run.count() - 1 {
            return 0;
        }
        let ghost v0 = self@;
        let ghost total: nat = v0.waitqs[w as int].len();
        let ghost mut fuel: nat = total;
        let q: usize = w + 1;
        let count: usize = self.run.len(q);
        let mut woken: usize = 0;
        while self.run.len(q) > 0
            invariant
                self.wf(),
                q == w + 1,
                total == count,
                self.params() == old(self).params(),
                w < self@.waitqs.len(),
                fuel == self@.waitqs[w as int].len(),
                woken + fuel == total,
                v0.wake_all(w, cause, swap@, total) == self@.wake_all(w, cause, swap@, fuel),
            decreases self@.waitqs[w as int].len(),
        {
            let t = self.run.first(q);
            proof {
                let v = self@;
                lemma_waiter_blocked(v, w, 0);
                lemma_wake(v, t, cause, swap@);
                lemma_wake_queue(v, w, 0, cause, swap@);
            }
            let copy = copy_bytes(swap);
            self.do_wake(t, cause, copy);
            woken = woken + 1;
            proof {
                fuel = (fuel - 1) as nat;
            }
        }
        woken
    }

    /// Creates a thread on the stack region `stack`, to start at `entry`
    /// with argument `arg`. The region is filled with the canary and the
    /// thread's first context is laid on top of it, so that the first resume
    /// enters `entry` with `arg`. The thread is in state `Initialized` until
    /// it is started; its handle is returned. Fails with `EINVAL`, with
    /// nothing changed, if the stack is too small or too large, or if the
    /// table of threads or of wait queues is full.
    pub fn thread_create(
        &mut self,
        stack: Vec<u8>,
        priority: u8,
        class: Priority,
        symbol: u8,
        entry: u16,
        arg: u16,
    ) -> (r: Result<ThreadId, OsErr>)
        requires
            old(self).wf(),
        ensures
            final(self).wf(),
            final(self).params() == old(self).params(),
            old(self)@.can_create(stack@.len()) ==> r == Ok::<ThreadId, OsErr>(
                old(self)@.threads.len() as usize,
            ) && final(self)@ == old(self)@.create(
                initial_stack(stack@.len(), entry, arg),
                priority,
                class,
                symbol,
                (stack@.len() - FRAME_SIZE) as u16,
            ),
            !old(self)@.can_create(stack@.len()) ==> r == Err::<ThreadId, OsErr>(OsErr::EINVAL)
                && final(self)@ == old(self)@,
    {
        let len: usize = stack.len();
        if len < self.config.min_stack_size as usize || len > u16::MAX as usize
            || self.threads.len() >= self.config.max_threads || self.run.count() - 1
            >= self.config.max_wait_queues {
            return Err(OsErr::EINVAL);
        }
        let mut stack = stack;
        prepare(&mut stack, entry, arg);
        let sp: u16 = (len - FRAME_SIZE) as u16;
        let t = self.threads.len();
        let tcb = Tcb {
            symbol,
            priority,
            class,
            state: ThreadState::Initialized,
            waiting_on: 0,
            timed: false,
            deadline: 0,
            timer_expired: false,
            canceled: false,
            join_queue: self.run.count() - 1,
            sp,
        };
        proof {
            lemma_create(self@, stack@, priority, class, symbol, sp);
        }
        self.threads.push(tcb);
        self.swaps.push(Vec::new());
        self.stacks.push(stack);
        self.run.add_node();
        self.run.add_queue();
        self.timers.add_node();
        assert(self@ =~~= old(self)@.create(stack@, priority, class, symbol, sp));
        Ok(t)
    }

    /// Starts a created thread: it becomes ready. Fails with `EINVAL` if
    /// there is no such thread and with `EALREADY` if it was started before.
    pub fn thread_start(&mut self, t: ThreadId) -> (r: Result<(), OsErr>)
        requires
            old(self).wf(),
        ensures
            final(self).wf(),
            final(self).params() == old(self).params(),
            t >= old(self)@.threads.len() ==> r == Err::<(), OsErr>(OsErr::EINVAL),
            t < old(self)@.threads.len() && old(self)@.threads[t as int].state
                != ThreadState::Initialized ==> r == Err::<(), OsErr>(OsErr::EALREADY),
            t < old(self)@.threads.len() && old(self)@.threads[t as int].state
                == ThreadState::Initialized ==> r is Ok,
            r is Ok ==> final(self)@ == old(self)@.enqueue_ready(t),
            r is Err ==> final(self)@ == old(self)@,
    {
        if t >= self.threads.len() {
            return Err(OsErr::EINVAL);
        }
        if self.threads[t].state != ThreadState::Initialized {
            return Err(OsErr::EALREADY);
        }
        proof {
            lemma_set_apart(self@, t);
        }
        self.do_enqueue_ready(t);
        Ok(())
    }

    /// The running thread terminates: the threads that wait to join it
    /// become ready, and the next ready thread runs. Nothing happens if no
    /// thread runs.
    pub fn thread_exit(&mut self)
        requires
            old(self).wf(),
        ensures
            final(self).wf(),
            final(self).params() == old(self).params(),
            final(self)@ == if old(self)@.current is Some {
                old(self)@.exit()
            } else {
                old(self)@
            },
    {
        let c = match self.current {
            Some(c) => c,
            None => {
                return ;
            },
        };
        let ghost v0 = self@;
        proof {
            lemma_unset_current(v0);
            lemma_settle(KernelView { current: None, ..v0 }, c, ThreadState::Terminated);
        }
        self.current = None;
        let mut tcb = self.threads[c];
        tcb.state = ThreadState::Terminated;
        self.threads.set(c, tcb);
        assert(self@ =~~= (KernelView { current: None, ..v0 }).settle(c, ThreadState::Terminated));
        let j = tcb.join_queue;
        let nothing: Vec<u8> = Vec::new();
        self.wake_all(j, WakeCause::Event, &nothing);
        self.do_dispatch();
    }

    /// Blocks the running thread until thread `target` has terminated, for
    /// at most `d`. Returns `Done` at once if the target has terminated.
    /// Fails with `EINVAL` if there is no such thread, and as busy if the
    /// wait cannot begin.
    pub fn join(&mut self, target: ThreadId, d: Duration) -> (r: Result<Wait<()>, OsErr>)
        requires
            old(self).wf(),
        ensures
            final(self).wf(),
            final(self).params() == old(self).params(),
            target >= old(self)@.threads.len() ==> r == Err::<Wait<()>, OsErr>(OsErr::EINVAL),
            target < old(self)@.threads.len() ==> {
                let v = old(self)@;
                if v.threads[target as int].state == ThreadState::Terminated {
                    r == Ok::<Wait<()>, OsErr>(Wait::Done(()))
                } else if v.current is None || v.no_wait(d) {
                    r == Err::<Wait<()>, OsErr>(OsErr::EBUSY)
                } else {
                    r == Ok::<Wait<()>, OsErr>(Wait::Pending)
                }
            },
            final(self)@ == if target < old(self)@.threads.len() && old(self)@.threads[target as int].state
                != ThreadState::Terminated {
                old(self)@.block(old(self)@.threads[target as int].join_queue, d)
            } else {
                old(self)@
            },
    {
        if target >= self.threads.len() {
            return Err(OsErr::EINVAL);
        }
        if self.threads[target].state == ThreadState::Terminated {
            return Ok(Wait::Done(()));
        }
        let j = self.threads[target].join_queue;
        match self.block_on(j, d) {
            Ok(()) => Ok(Wait::Pending),
            Err(e) => Err(e),
        }
    }

    /// Collects how the last wait of the running thread ended: the value it
    /// was handed, or `ETIMEDOUT` if the deadline passed, or `ECANCELED` if
    /// the object went away. The record of the wait is cleared. Fails with
    /// `ENOENT`, with nothing changed, if no thread runs.
    pub fn collect(&mut self) -> (r: Result<Vec<u8>, OsErr>)
        requires
            old(self).wf(),
        ensures
            final(self).wf(),
            final(self).params() == old(self).params(),
            final(self)@ == old(self)@.collected(),
            old(self)@.current is None ==> r == Err::<Vec<u8>, OsErr>(OsErr::ENOENT),
            old(self)@.current is Some ==> match r {
                Ok(swap) => old(self)@.outcome() == Ok::<Seq<u8>, OsErr>(swap@),
                Err(e) => old(self)@.outcome() == Err::<Seq<u8>, OsErr>(e),
            },
    {
        let c = match self.current {
            Some(c) => c,
            None => {
                return Err(OsErr::ENOENT);
            },
        };
        proof {
            lemma_collect(self@);
        }
        let tcb0 = self.threads[c];
        let swap = copy_bytes(&self.swaps[c]);
        let mut tcb = tcb0;
        tcb.timer_expired = false;
        tcb.canceled = false;
        self.threads.set(c, tcb);
        self.swaps.set(c, Vec::new());
        assert(self@ =~~= old(self)@.collect());
        if tcb0.timer_expired {
            Err(OsErr::ETIMEDOUT)
        } else if tcb0.canceled {
            Err(OsErr::ECANCELED)
        } else {
            Ok(swap)
        }
    }

    /// Tests whether the canary of the stack of thread `t` is whole; `None`
    /// if there is no such thread.
    pub fn check_stack_canaries(&self, t: ThreadId) -> (r: Option<bool>)
        requires
            self.wf(),
        ensures
            r == if t < self@.threads.len() {
                Some(canaries_intact(self@.stacks[t as int]))
            } else {
                None
            },
    {
        if t < self.threads.len() {
            Some(check_canaries(&self.stacks[t]))
        } else {
            None
        }
    }

    /// The stack figures of thread `t`; `None` if there is no such thread or
    /// the kernel keeps no statistics.
    pub fn stats(&self, t: ThreadId) -> (r: Option<Stats>)
        requires
            self.wf(),
        ensures
            r is Some <==> t < self@.threads.len() && self@.config.statistics,
            r matches Some(s) ==> s.stack_size == self@.stacks[t as int].len() && s.stack_usage
                == usage(self@.stacks[t as int]),
    {
        if t < self.threads.len() && self.config.statistics {
            assert(self@.stacks[t as int].len() <= u16::MAX);
            let used: usize = measure(&self.stacks[t]);
            proof {
                crate::stack::lemma_untouched(self@.stacks[t as int]);
            }
            Some(Stats { stack_size: self.stacks[t].len() as u16, stack_usage: used as u16 })
        } else {
            None
        }
    }

    /// Records that the byte at `offset` of the stack of thread `t` was
    /// written with `value`. Fails with `EINVAL`, with nothing changed, if
    /// there is no such thread or the offset lies outside its stack.
    pub fn poke_stack(&mut self, t: ThreadId, offset: usize, value: u8) -> (r: Result<(), OsErr>)
        requires
            old(self).wf(),
        ensures
            final(self).wf(),
            final(self).params() == old(self).params(),
            r is Ok <==> t < old(self)@.threads.len() && offset < old(self)@.stacks[t as int].len(),
            r is Ok ==> final(self)@ == old(self)@.poke(t, offset as int, value),
            r matches Err(e) ==> e == OsErr::EINVAL && final(self)@ == old(self)@,
    {
        if t >= self.threads.len() || offset >= self.stacks[t].len() {
            return Err(OsErr::EINVAL);
        }
        self.stacks[t].set(offset, value);
        proof {
            assert(self@ =~~= old(self)@.poke(t, offset as int, value));
            lemma_unscheduled(old(self)@, self@);
        }
        Ok(())
    }

    /// The context switch: the stack pointer `sp` of the thread `from` that
    /// leaves the processor is saved in its control block, and the thread
    /// that now runs resumes from the stack pointer saved in its own. If the
    /// kernel checks canaries and the canary of the leaving thread's stack
    /// is broken, the switch ends in a fault instead. The scheduling state
    /// does not change.
    pub fn context_switch(&mut self, from: Option<ThreadId>, sp: u16) -> (r: Switch)
        requires
            old(self).wf(),
        ensures
            final(self).wf(),
            final(self).params() == old(self).params(),
            final(self)@ == old(self)@.switched(from, sp),
            r == if old(self)@.overflown(from) {
                Switch::Fault { thread: from.unwrap() }
            } else {
                match final(self)@.current {
                    Some(c) => Switch::Resume { thread: c, sp: final(self)@.threads[c as int].sp },
                    None => Switch::Idle,
                }
            },
    {
        match from {
            Some(f) => {
                if f < self.threads.len() {
                    let mut tcb = self.threads[f];
                    tcb.sp = sp;
                    self.threads.set(f, tcb);
                    proof {
                        assert(self@ =~~= old(self)@.save_sp(f, sp));
                        lemma_unscheduled(old(self)@, self@);
                    }
                    if self.config.canaries && !check_canaries(&self.stacks[f]) {
                        return Switch::Fault { thread: f };
                    }
                }
            },
            None => {},
        }
        match self.current {
            Some(c) => Switch::Resume { thread: c, sp: self.threads[c].sp },
            None => Switch::Idle,
        }
    }

    /// Whether interrupts are enabled.
    pub fn interrupts_enabled(&self) -> (b: bool)
        ensures
            b == !self@.irq_locked,
    {
        !self.irq_locked
    }

    /// Disables interrupts and returns a key that tells whether they were
    /// enabled: 1 if so, 0 if not.
    pub fn irq_lock(&mut self) -> (key: u8)
        requires
            old(self).wf(),
        ensures
            final(self).wf(),
            final(self).params() == old(self).params(),
            final(self)@ == (KernelView { irq_locked: true, ..old(self)@ }),
            key == if old(self)@.irq_locked {
                0u8
            } else {
                1u8
            },
    {
        let key: u8 = if self.irq_locked {
            0
        } else {
            1
        };
        proof {
            lemma_flags(self@, self@.resched, true);
        }
        self.irq_locked = true;
        assert(self@ =~~= (KernelView { irq_locked: true, ..old(self)@ }));
        key
    }

    /// Puts interrupts back as the key of the matching `irq_lock` says:
    /// enabled unless the key is 0.
    pub fn irq_unlock(&mut self, key: u8)
        requires
            old(self).wf(),
        ensures
            final(self).wf(),
            final(self).params() == old(self).params(),
            final(self)@ == (KernelView { irq_locked: key == 0, ..old(self)@ }),
    {
        proof {
            lemma_flags(self@, self@.resched, key == 0);
        }
        self.irq_locked = key == 0;
        assert(self@ =~~= (KernelView { irq_locked: key == 0, ..old(self)@ }));
    }

    /// Wakes every thread that waits in queue `w` as canceled: the object
    /// they waited on goes away. Returns the number of threads woken.
    pub fn cancel(&mut self, w: WaitQueueId) -> (woken: usize)
        requires
            old(self).wf(),
        ensures
            final(self).wf(),
            final(self).params() == old(self).params(),
            final(self)@ == old(self)@.wake_all(
                w,
                WakeCause::Canceled,
                Seq::empty(),
                if w < old(self)@.waitqs.len() {
                    old(self)@.waitqs[w as int].len()
                } else {
                    0
                },
            ),
            woken == if w < old(self)@.waitqs.len() {
                old(self)@.waitqs[w as int].len()
            } else {
                0
            },
    {
        let nothing: Vec<u8> = Vec::new();
        self.wake_all(w, WakeCause::Canceled, &nothing)
    }

    /// Collects how the last wait of the running thread ended, without the
    /// value: success, or `ETIMEDOUT`, or `ECANCELED`; `ENOENT` if no
    /// thread runs.
    pub fn collect_verdict(&mut self) -> (r: Result<(), OsErr>)
        requires
            old(self).wf(),
        ensures
            final(self).wf(),
            final(self).params() == old(self).params(),
            final(self)@ == old(self)@.collected(),
            r == old(self)@.verdict(),
    {
        match self.collect() {
            Ok(_) => Ok(()),
            Err(e) => Err(e),
        }
    }
}

/// Puts the running thread of `kernel` to sleep for `duration`.
pub fn sleep(kernel: &mut Kernel, duration: Duration)
    requires
        old(kernel).wf(),
    ensures
        final(kernel).wf(),
        final(kernel)@ == old(kernel)@.sleep(duration),
{
    kernel.sleep(duration);
}

/// The running thread of `kernel` gives way to the ready threads of its
/// priority and above.
pub fn yeet(kernel: &mut Kernel)
    requires
        old(kernel).wf(),
    ensures
        final(kernel).wf(),
        final(kernel)@ == old(kernel)@.yield_now(),
{
    kernel.yield_now();
}

/// The running thread of `kernel` sleeps for no time at all, which only
/// makes it give way.
pub fn sleep_broken(kernel: &mut Kernel)
    requires
        old(kernel).wf(),
    ensures
        final(kernel).wf(),
        final(kernel)@ == old(kernel)@.sleep_ticks(0),
{
    kernel.sleep_ticks(0);
}

/// The running thread of `kernel` sleeps for a thousand ticks.
pub fn rust_sleep(kernel: &mut Kernel)
    requires
        old(kernel).wf(),
    ensures
        final(kernel).wf(),
        final(kernel)@ == old(kernel)@.sleep_ticks(1000),
{
    kernel.sleep_ticks(1000);
}

/// The running thread of `kernel` gives way, with interrupts disabled while
/// the queues change and put back as they were afterwards.
pub fn rust_yield(kernel: &mut Kernel)
    requires
        old(kernel).wf(),
    ensures
        final(kernel).wf(),
        final(kernel)@ == old(kernel)@.yield_now(),
{
    let key = kernel.irq_lock();
    kernel.yield_now();
    kernel.irq_unlock(key);
    proof {
        let v = old(kernel)@;
        lemma_yield_with_lock(v, true);
        lemma_yield_with_lock(v, v.irq_locked);
        assert((KernelView { irq_locked: v.irq_locked, ..v }) =~= v);
        assert(kernel@ =~= v.yield_now());
    }
}

} // verus!
