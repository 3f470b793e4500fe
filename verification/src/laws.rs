//! What holds of the scheduler in every state: who is selected, where a
//! thread can be queued, and when a sleeper wakes.

use crate::duration::Duration;
use crate::model::{clock_range, KernelView};
use crate::preserve::{
    lemma_add_queue, lemma_collect, lemma_create, lemma_exit, lemma_expire, lemma_isr_exit,
    lemma_preempt, lemma_start, lemma_suspend, lemma_tick, lemma_wake, lemma_wake_all,
    lemma_wake_first, lemma_wake_highest, lemma_yield,
};
use crate::queue::{lemma_position, lemma_remove_members, position};
use crate::steps::{
    lemma_arm, lemma_dispatch, lemma_enqueue_ready, lemma_limbo_update, lemma_settle,
    lemma_unset_current,
};
use crate::thread::{Priority, Tcb, ThreadId, ThreadState, WaitQueueId, WakeCause};
use vstd::prelude::*;

verus! {

/// The head of the ready queue has the highest priority of all ready
/// threads: no ready thread outranks it.
pub proof fn lemma_head_is_highest(v: KernelView, t: ThreadId)
    requires
        v.wf(),
        t < v.threads.len(),
        v.threads[t as int].state == ThreadState::Ready,
    ensures
        v.ready.len() > 0,
        v.prio(t) <= v.prio(v.ready[0]),
{
    assert(v.ready.contains(t));
    let i = choose|i: int| 0 <= i < v.ready.len() && v.ready[i] == t;
    assert(v.ready_keys()[0] >= v.ready_keys()[i]);
}

/// Whether the running thread of `v` has at least the priority of every
/// ready thread, and some thread runs unless none is ready.
pub open spec fn highest_runs(v: KernelView) -> bool {
    match v.current {
        Some(c) => forall|t: ThreadId|
            t < v.threads.len() && (#[trigger] v.threads[t as int]).state == ThreadState::Ready
                ==> v.prio(t) <= v.prio(c),
        None => forall|t: ThreadId|
            t < v.threads.len() ==> (#[trigger] v.threads[t as int]).state != ThreadState::Ready,
    }
}

/// When an idle processor is dispatched, the thread selected has the
/// highest priority of all ready threads.
pub proof fn lemma_dispatch_selects_highest(v: KernelView)
    requires
        v.wf(),
        v.current is None,
    ensures
        highest_runs(v.dispatch()),
{
    let n = v.dispatch();
    lemma_dispatch(v, None);
    if v.ready.len() > 0 {
        let h = v.ready[0];
        assert forall|t: ThreadId|
            t < n.threads.len() && (#[trigger] n.threads[t as int]).state
                == ThreadState::Ready implies n.prio(t) <= n.prio(h) by {
            assert(v.threads[t as int].state == ThreadState::Ready);
            lemma_head_is_highest(v, t);
        }
    } else {
        assert forall|t: ThreadId| t < n.threads.len() implies (#[trigger] n.threads[t as int]).state
            != ThreadState::Ready by {
            if v.threads[t as int].state == ThreadState::Ready {
                assert(v.ready.contains(t));
            }
        }
    }
}

/// Priority correctness at every point where the processor is given up.
/// After a yield, and after the running thread blocks or sleeps, the thread
/// that runs has at least the priority of every thread that is ready: a
/// thread runs only when no thread of a higher priority is ready.
pub proof fn lemma_priority_correctness(
    v: KernelView,
    queue: Option<WaitQueueId>,
    ticks: Option<int>,
)
    requires
        v.wf(),
        queue matches Some(w) ==> w < v.waitqs.len(),
        ticks matches Some(k) ==> 1 <= k < clock_range(),
    ensures
        highest_runs(v.yield_now()),
        v.current is Some ==> highest_runs(v.suspend(queue, ticks)),
{
    match v.current {
        Some(c) => {
            lemma_unset_current(v);
            let u = KernelView { current: None, ..v };
            lemma_enqueue_ready(u, c);
            lemma_dispatch_selects_highest(u.enqueue_ready(c));
            // blocking
            let tcb = Tcb { timer_expired: false, canceled: false, ..v.threads[c as int] };
            lemma_limbo_update(u, c, tcb, Seq::empty());
            let a = KernelView {
                current: None,
                threads: v.threads.update(c as int, tcb),
                swaps: v.swaps.update(c as int, Seq::empty()),
                ..v
            };
            assert(a == KernelView {
                threads: u.threads.update(c as int, tcb),
                swaps: u.swaps.update(c as int, Seq::empty()),
                ..u
            });
            let b = match ticks {
                Some(k) => a.arm(c, k),
                None => a,
            };
            if let Some(k) = ticks {
                lemma_arm(a, c, k);
            }
            let d = match queue {
                Some(w) => b.enter_queue(c, w),
                None => b.settle(c, ThreadState::Sleeping),
            };
            match queue {
                Some(w) => {
                    crate::steps::lemma_enter_queue(b, c, w);
                },
                None => {
                    lemma_settle(b, c, ThreadState::Sleeping);
                },
            }
            lemma_dispatch_selects_highest(d);
        },
        None => {
            lemma_dispatch_selects_highest(v);
        },
    }
}

/// Priority correctness at the tick. When the tick interrupt has been
/// served, a preemptive thread runs only if no ready thread has a higher
/// priority, and the processor idles only if no thread is ready. (A
/// cooperative thread keeps the processor until it yields or blocks, whoever
/// is ready.)
pub proof fn lemma_tick_preempts(v: KernelView)
    requires
        v.wf(),
        !v.irq_locked,
    ensures
        ({
            let n = v.tick().isr_exit();
            match n.current {
                Some(c) => n.threads[c as int].class == Priority::Preemptive ==> highest_runs(n),
                None => highest_runs(n),
            }
        }),
{
    let a = v.tick();
    lemma_tick(v);
    if a.resched {
        let b = KernelView { resched: false, ..a };
        crate::preserve::lemma_flags(a, false, a.irq_locked);
        assert(b == KernelView { resched: false, irq_locked: a.irq_locked, ..a });
        match b.current {
            None => {
                lemma_dispatch_selects_highest(b);
            },
            Some(c) => {
                if b.threads[c as int].class == Priority::Preemptive {
                    lemma_priority_correctness(b, None, None);
                }
            },
        }
    } else {
        assert(!a.outranked());
        match a.current {
            None => {
                assert forall|t: ThreadId| t < a.threads.len() implies (#[trigger] a.threads[t as int]).state
                    != ThreadState::Ready by {
                    if a.threads[t as int].state == ThreadState::Ready {
                        assert(a.ready.contains(t));
                    }
                }
            },
            Some(c) => {
                if a.threads[c as int].class == Priority::Preemptive {
                    assert forall|t: ThreadId|
                        t < a.threads.len() && (#[trigger] a.threads[t as int]).state
                            == ThreadState::Ready implies a.prio(t) <= a.prio(c) by {
                        lemma_head_is_highest(a, t);
                    }
                }
            },
        }
    }
}

/// Queue exclusivity. A thread is in the ready queue at most once and in at
/// most one wait queue, there at most once, and in the timeout queue at most
/// once. A thread in the ready queue is in no wait queue and not in the
/// timeout queue, and the running thread is in no queue at all. (A thread
/// that waits with a deadline is in its wait queue and in the timeout queue
/// together, and leaves both together.)
pub proof fn lemma_queue_exclusivity(v: KernelView, t: ThreadId)
    requires
        v.wf(),
        t < v.threads.len(),
    ensures
        v.ready.no_duplicates(),
        v.timeouts.no_duplicates(),
        forall|w: int| 0 <= w < v.waitqs.len() ==> (#[trigger] v.waitqs[w]).no_duplicates(),
        forall|w1: int, w2: int|
            0 <= w1 < v.waitqs.len() && 0 <= w2 < v.waitqs.len() && (#[trigger] v.waitqs[w1]).contains(
                t,
            ) && (#[trigger] v.waitqs[w2]).contains(t) ==> w1 == w2,
        v.ready.contains(t) ==> !v.timeouts.contains(t) && forall|w: int|
            0 <= w < v.waitqs.len() ==> !(#[trigger] v.waitqs[w]).contains(t),
        v.current == Some(t) ==> !v.ready.contains(t) && !v.timeouts.contains(t) && forall|w: int|
            0 <= w < v.waitqs.len() ==> !(#[trigger] v.waitqs[w]).contains(t),
{
    assert forall|w: int| 0 <= w < v.waitqs.len() && (#[trigger] v.waitqs[w]).contains(
        t,
    ) implies v.threads[t as int].state == ThreadState::Waiting && v.threads[t as int].waiting_on
        == w by {
        let i = choose|i: int| 0 <= i < v.waitqs[w].len() && v.waitqs[w][i] == t;
        assert(v.threads[v.waitqs[w][i] as int].state == ThreadState::Waiting);
    }
    if v.ready.contains(t) {
        let i = choose|i: int| 0 <= i < v.ready.len() && v.ready[i] == t;
        assert(v.threads[v.ready[i] as int].state == ThreadState::Ready);
    }
    if v.timeouts.contains(t) {
        let i = choose|i: int| 0 <= i < v.timeouts.len() && v.timeouts[i] == t;
        assert(v.threads[v.timeouts[i] as int].timed);
    }
}

/// The invariant holds at every instant: every transition of the kernel
/// keeps it, so that what it says of the queues holds after any sequence of
/// operations on a kernel that was booted.
pub proof fn lemma_invariant_kept(
    v: KernelView,
    t: ThreadId,
    w: WaitQueueId,
    queue: Option<WaitQueueId>,
    ticks: Option<int>,
    cause: WakeCause,
    swap: Seq<u8>,
    fuel: nat,
    stack: Seq<u8>,
    priority: u8,
    class: Priority,
    symbol: u8,
    sp: u16,
)
    requires
        v.wf(),
    ensures
        v.yield_now().wf(),
        v.tick().wf(),
        v.preempt().wf(),
        v.isr_exit().wf(),
        v.wake_first(w, swap).wf(),
        v.wake_highest(w, swap).wf(),
        v.wake_all(w, cause, swap, fuel).wf(),
        v.add_queue().wf(),
        v.blocked(t) ==> v.wake(t, cause, swap).wf(),
        v.waitqs.len() < usize::MAX && stack.len() <= u16::MAX ==> v.create(
            stack,
            priority,
            class,
            symbol,
            sp,
        ).wf(),
        t < v.threads.len() && v.threads[t as int].state == ThreadState::Initialized
            ==> v.enqueue_ready(t).wf(),
        v.current is Some ==> v.exit().wf() && v.collect().wf(),
        v.current is Some && (queue matches Some(q) ==> q < v.waitqs.len()) && (ticks matches Some(
            k,
        ) ==> 1 <= k < clock_range()) ==> v.suspend(queue, ticks).wf(),
{
    lemma_yield(v);
    lemma_tick(v);
    lemma_preempt(v);
    lemma_isr_exit(v);
    lemma_wake_first(v, w, swap);
    lemma_wake_highest(v, w, swap);
    lemma_wake_all(v, w, cause, swap, fuel);
    lemma_add_queue(v);
    if v.blocked(t) {
        lemma_wake(v, t, cause, swap);
    }
    if v.waitqs.len() < usize::MAX && stack.len() <= u16::MAX {
        lemma_create(v, stack, priority, class, symbol, sp);
    }
    if t < v.threads.len() && v.threads[t as int].state == ThreadState::Initialized {
        lemma_start(v, t);
    }
    if v.current is Some {
        lemma_exit(v);
        lemma_collect(v);
        if (queue matches Some(q) ==> q < v.waitqs.len()) && (ticks matches Some(k) ==> 1 <= k
            < clock_range()) {
            lemma_suspend(v, queue, ticks);
        }
    }
}

/// At every instant at most one thread is running, and it is the current
/// one.
pub proof fn lemma_one_runs(v: KernelView, a: ThreadId, b: ThreadId)
    requires
        v.wf(),
        a < v.threads.len(),
        b < v.threads.len(),
        v.threads[a as int].state == ThreadState::Running,
        v.threads[b as int].state == ThreadState::Running,
    ensures
        a == b,
        v.current == Some(a),
{
}

/// Waking one thread leaves every other thread as it was, in the timeout
/// queue if it was there.
pub proof fn lemma_wake_other(v: KernelView, x: ThreadId, t: ThreadId, cause: WakeCause, swap: Seq<u8>)
    requires
        v.wf(),
        v.blocked(x),
        t < v.threads.len(),
        t != x,
    ensures
        v.wake(x, cause, swap).threads[t as int] == v.threads[t as int],
        v.timeouts.contains(t) == v.wake(x, cause, swap).timeouts.contains(t),
{
    lemma_position(v.timeouts, x);
    if v.timeouts.contains(x) {
        lemma_remove_members(v.timeouts, position(v.timeouts, x));
    }
}

/// A thread without a deadline is not touched when deadlines expire.
pub proof fn lemma_expire_leaves(v: KernelView, t: ThreadId, fuel: nat)
    requires
        v.wf(),
        t < v.threads.len(),
        !v.threads[t as int].timed,
    ensures
        v.expire(fuel).threads[t as int] == v.threads[t as int],
    decreases fuel,
{
    if fuel > 0 && v.due() {
        let x = v.timeouts[0];
        assert(v.threads[x as int].timed);
        lemma_wake(v, x, WakeCause::Expired, Seq::empty());
        lemma_wake_other(v, x, t, WakeCause::Expired, Seq::empty());
        lemma_expire_leaves(v.wake(x, WakeCause::Expired, Seq::empty()), t, (fuel - 1) as nat);
    }
}

/// When deadlines expire, a thread with a deadline either stays as it was,
/// in the timeout queue, or was woken as expired; it stays if its deadline
/// is more than one tick away.
pub proof fn lemma_expire_fate(v: KernelView, t: ThreadId, fuel: nat)
    requires
        v.wf(),
        t < v.threads.len(),
        v.threads[t as int].timed,
    ensures
        ({
            let e = v.expire(fuel);
            ||| e.threads[t as int] == v.threads[t as int] && e.timeouts.contains(t)
            ||| e.threads[t as int].state == ThreadState::Ready && e.threads[t as int].timer_expired
                && v.left(t) == 1
        }),
    decreases fuel,
{
    assert(v.timeouts.contains(t));
    if fuel > 0 && v.due() {
        let x = v.timeouts[0];
        assert(v.threads[x as int].timed);
        lemma_wake(v, x, WakeCause::Expired, Seq::empty());
        let w = v.wake(x, WakeCause::Expired, Seq::empty());
        if x == t {
            lemma_expire_leaves(w, t, (fuel - 1) as nat);
        } else {
            lemma_wake_other(v, x, t, WakeCause::Expired, Seq::empty());
            lemma_expire_fate(w, t, (fuel - 1) as nat);
        }
    }
}

/// What one tick does to a thread with a deadline: if the deadline is more
/// than one tick away the thread stays blocked, one tick nearer to it; if it
/// is one tick away the thread is woken as expired.
pub proof fn lemma_tick_fate(v: KernelView, t: ThreadId)
    requires
        v.wf(),
        !v.irq_locked,
        t < v.threads.len(),
        v.threads[t as int].timed,
    ensures
        v.tick().wf(),
        !v.tick().irq_locked,
        v.tick().threads.len() == v.threads.len(),
        v.left(t) >= 1,
        v.left(t) > 1 ==> v.tick().threads[t as int] == v.threads[t as int] && v.tick().left(t)
            == v.left(t) - 1,
        v.left(t) == 1 ==> v.tick().threads[t as int].state == ThreadState::Ready
            && v.tick().threads[t as int].timer_expired,
{
    lemma_tick(v);
    let fuel = v.timeouts.len();
    lemma_expire(v, fuel);
    lemma_expire_fate(v, t, fuel);
    let e = v.expire(fuel);
    assert(v.timeouts.contains(t));
    let i0 = choose|i: int| 0 <= i < v.timeouts.len() && v.timeouts[i] == t;
    assert(v.left(v.timeouts[i0]) >= 1);
    if e.threads[t as int] == v.threads[t as int] && e.timeouts.contains(t) {
        let i = choose|i: int| 0 <= i < e.timeouts.len() && e.timeouts[i] == t;
        assert(e.timeout_keys()[0] >= e.timeout_keys()[i]);
        assert(e.left(e.timeouts[0]) >= 1);
        assert(e.left(t) == v.left(t));
        assert(v.left(t) > 1);
    }
}

/// The state after `n` ticks with nothing else happening.
pub open spec fn tick_times(v: KernelView, n: nat) -> KernelView
    decreases n,
{
    if n == 0 {
        v
    } else {
        tick_times(v, (n - 1) as nat).tick()
    }
}

/// The timeout bound. A thread whose deadline is `k` ticks away is still
/// blocked after every smaller number of ticks, and is woken as expired by
/// tick `k`: not before its time, and not a tick late.
pub proof fn lemma_timeout_bound(v: KernelView, t: ThreadId, j: nat)
    requires
        v.wf(),
        !v.irq_locked,
        t < v.threads.len(),
        v.threads[t as int].timed,
        j <= v.left(t),
    ensures
        tick_times(v, j).wf(),
        !tick_times(v, j).irq_locked,
        tick_times(v, j).threads.len() == v.threads.len(),
        j < v.left(t) ==> tick_times(v, j).threads[t as int] == v.threads[t as int] && tick_times(
            v,
            j,
        ).left(t) == v.left(t) - j,
        j == v.left(t) ==> tick_times(v, j).threads[t as int].state == ThreadState::Ready
            && tick_times(v, j).threads[t as int].timer_expired,
    decreases j,
{
    if j == 0 {
        assert(v.timeouts.contains(t));
        let i = choose|i: int| 0 <= i < v.timeouts.len() && v.timeouts[i] == t;
        assert(v.left(v.timeouts[i]) >= 1);
    } else {
        lemma_timeout_bound(v, t, (j - 1) as nat);
        lemma_tick_fate(tick_times(v, (j - 1) as nat), t);
    }
}

/// A thread that goes to sleep for a duration of `k` ticks, `k` at least
/// one, is blocked with a deadline `k` ticks away; so it wakes at tick `k`
/// and at no other.
pub proof fn lemma_sleep_deadline(v: KernelView, d: Duration)
    requires
        v.wf(),
        v.current is Some,
        !d.forever(),
        1 <= v.wait_ticks(d) < clock_range(),
    ensures
        v.sleep(d).wf(),
        v.sleep(d).threads[v.current.unwrap() as int].state == ThreadState::Sleeping,
        v.sleep(d).threads[v.current.unwrap() as int].timed,
        v.sleep(d).left(v.current.unwrap()) == v.wait_ticks(d),
{
    let c = v.current.unwrap();
    let k = v.wait_ticks(d);
    lemma_suspend(v, None, Some(k));
    lemma_unset_current(v);
    let u = KernelView { current: None, ..v };
    let tcb = Tcb { timer_expired: false, canceled: false, ..v.threads[c as int] };
    lemma_limbo_update(u, c, tcb, Seq::empty());
    let a = KernelView {
        current: None,
        threads: v.threads.update(c as int, tcb),
        swaps: v.swaps.update(c as int, Seq::empty()),
        ..v
    };
    assert(a == KernelView {
        threads: u.threads.update(c as int, tcb),
        swaps: u.swaps.update(c as int, Seq::empty()),
        ..u
    });
    lemma_arm(a, c, k);
    let b = a.arm(c, k);
    lemma_settle(b, c, ThreadState::Sleeping);
    let s = b.settle(c, ThreadState::Sleeping);
    assert(s.left(c) == k);
    if s.ready.len() > 0 {
        assert(s.threads[s.ready[0] as int].state == ThreadState::Ready);
    }
}

/// A wait of any duration with a deadline comes to fewer ticks than the
/// tick clock has values.
pub proof fn lemma_wait_ticks_fit(v: KernelView, d: Duration)
    requires
        v.config.valid(),
    ensures
        0 <= v.wait_ticks(d) < clock_range(),
{
    let micros = d.millis() * 1000;
    let period = v.config.tick_period_us as nat;
    assert(micros / period <= micros) by (nonlinear_arith)
        requires
            period >= 1,
    ;
    assert(d.millis() <= u32::MAX) by {
        d.lemma_millis_fit();
    }
}

/// The timeout bound for a sleeper. A thread that goes to sleep for a
/// duration that comes to `k` ticks, `k` at least one, sleeps through every
/// smaller number of ticks and is ready, its timer expired, when tick `k`
/// has been taken: it wakes no earlier than its duration and less than one
/// tick period later.
pub proof fn lemma_sleeper_wakes_on_time(v: KernelView, d: Duration, j: nat)
    requires
        v.wf(),
        !v.irq_locked,
        v.current is Some,
        !d.forever(),
        1 <= v.wait_ticks(d),
        j <= v.wait_ticks(d),
    ensures
        j < v.wait_ticks(d) ==> tick_times(v.sleep(d), j).threads[v.current.unwrap() as int].state
            == ThreadState::Sleeping,
        j == v.wait_ticks(d) ==> tick_times(v.sleep(d), j).threads[v.current.unwrap() as int].state
            == ThreadState::Ready && tick_times(
            v.sleep(d),
            j,
        ).threads[v.current.unwrap() as int].timer_expired,
{
    lemma_wait_ticks_fit(v, d);
    lemma_sleep_deadline(v, d);
    let s = v.sleep(d);
    assert(s.irq_locked == v.irq_locked) by {
        lemma_sleep_keeps_lock(v, d);
    }
    lemma_timeout_bound(s, v.current.unwrap(), j);
}

/// Going to sleep does not touch the interrupt lock.
pub proof fn lemma_sleep_keeps_lock(v: KernelView, d: Duration)
    requires
        v.current is Some,
        !d.forever(),
        1 <= v.wait_ticks(d),
    ensures
        v.sleep(d).irq_locked == v.irq_locked,
{
}

/// Waking a thread does not read the clock: it comes to the same whether
/// the clock is advanced before or after.
pub proof fn lemma_wake_with_clock(v: KernelView, t: ThreadId, cause: WakeCause, swap: Seq<u8>, now: u64)
    ensures
        (KernelView { now, ..v }).wake(t, cause, swap) == (KernelView {
            now,
            ..v.wake(t, cause, swap)
        }),
{
    let a = KernelView { now, ..v };
    let va = v.leave_queue(t).disarm(t);
    let aa = a.leave_queue(t).disarm(t);
    assert(aa =~= (KernelView { now, ..va }));
    let tcb = Tcb {
        timer_expired: cause == WakeCause::Expired,
        canceled: cause == WakeCause::Canceled,
        ..va.threads[t as int]
    };
    let vb = KernelView {
        threads: va.threads.update(t as int, tcb),
        swaps: va.swaps.update(t as int, swap),
        ..va
    };
    let ab = KernelView {
        threads: aa.threads.update(t as int, tcb),
        swaps: aa.swaps.update(t as int, swap),
        ..aa
    };
    assert(ab =~= (KernelView { now, ..vb }));
    assert(ab.ready_keys() =~= vb.ready_keys());
    assert(ab.enqueue_ready(t) =~= (KernelView { now, ..vb.enqueue_ready(t) }));
}

/// A tick in the order in which the interrupt handler works: the clock is
/// advanced first, then the front of the timeout queue is popped while its
/// deadline is the clock value, and last the reschedule is flagged. This
/// comes to the state that `tick` gives.
pub proof fn lemma_tick_in_order(v: KernelView)
    requires
        v.wf(),
        !v.irq_locked,
    ensures
        ({
            let advanced = KernelView { now: crate::model::clock_add(v.now, 1), ..v };
            let popped = advanced.pop_expired(v.timeouts.len());
            v.tick() == (KernelView { resched: popped.resched || popped.outranked(), ..popped })
        }),
{
    lemma_pop_is_expire(v, v.timeouts.len());
}

/// Popping the deadlines that have come after the clock was advanced wakes
/// the threads that were due before it was.
pub proof fn lemma_pop_is_expire(v: KernelView, fuel: nat)
    requires
        v.wf(),
    ensures
        (KernelView { now: crate::model::clock_add(v.now, 1), ..v }).pop_expired(fuel) == (KernelView {
            now: crate::model::clock_add(v.now, 1),
            ..v.expire(fuel)
        }),
    decreases fuel,
{
    let next = crate::model::clock_add(v.now, 1);
    let a = KernelView { now: next, ..v };
    if fuel > 0 && v.timeouts.len() > 0 {
        let h = v.timeouts[0];
        assert(h < v.threads.len());
        assert(v.left(h) >= 1);
        assert(v.threads[h as int].timed);
        assert(v.due() <==> v.threads[h as int].deadline == next);
        if v.due() {
            lemma_wake(v, h, WakeCause::Expired, Seq::empty());
            lemma_wake_with_clock(v, h, WakeCause::Expired, Seq::empty(), next);
            lemma_pop_is_expire(v.wake(h, WakeCause::Expired, Seq::empty()), (fuel - 1) as nat);
        }
    }
}

} // verus!
