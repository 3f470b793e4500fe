//! Every transition of the kernel keeps its invariant.

use crate::model::{clock_add, clock_range, KernelView};
use crate::queue::{first_max, lemma_first_max, lemma_position, position};
use crate::steps::{
    lemma_advance, lemma_arm, lemma_detach, lemma_dispatch, lemma_enqueue_ready, lemma_enter_queue,
    lemma_limbo_update, lemma_set_apart, lemma_settle, lemma_unset_current,
};
use crate::thread::{Priority, Tcb, ThreadId, ThreadState, WaitQueueId, WakeCause};
use vstd::prelude::*;

verus! {

/// Waking a blocked thread keeps the invariant. The thread is then ready
/// and in no wait queue; the timeout queue has lost it and nothing else.
pub proof fn lemma_wake(v: KernelView, t: ThreadId, cause: WakeCause, swap: Seq<u8>)
    requires
        v.wf(),
        v.blocked(t),
    ensures
        v.wake(t, cause, swap).wf(),
        v.wake(t, cause, swap).threads.len() == v.threads.len(),
        v.wake(t, cause, swap).waitqs.len() == v.waitqs.len(),
        v.wake(t, cause, swap).threads[t as int].state == ThreadState::Ready,
        v.wake(t, cause, swap).timeouts.len() == v.timeouts.len() - (if v.threads[t as int].timed {
            1int
        } else {
            0int
        }),
        v.wake(t, cause, swap).current == v.current,
        v.wake(t, cause, swap).now == v.now,
        v.wake(t, cause, swap).irq_locked == v.irq_locked,
{
    let a = v.leave_queue(t).disarm(t);
    lemma_detach(v, t);
    let tcb = Tcb {
        timer_expired: cause == WakeCause::Expired,
        canceled: cause == WakeCause::Canceled,
        ..a.threads[t as int]
    };
    lemma_limbo_update(a, t, tcb, swap);
    let b = KernelView {
        threads: a.threads.update(t as int, tcb),
        swaps: a.swaps.update(t as int, swap),
        ..a
    };
    lemma_enqueue_ready(b, t);
    lemma_position(v.timeouts, t);
    if v.threads[t as int].timed {
        assert(v.timeouts.contains(t));
    } else if v.timeouts.contains(t) {
        let i = choose|i: int| 0 <= i < v.timeouts.len() && v.timeouts[i] == t;
        assert(v.threads[v.timeouts[i] as int].timed);
    }
}

/// Blocking the running thread keeps the invariant.
pub proof fn lemma_suspend(v: KernelView, queue: Option<WaitQueueId>, ticks: Option<int>)
    requires
        v.wf(),
        v.current is Some,
        queue matches Some(w) ==> w < v.waitqs.len(),
        ticks matches Some(k) ==> 1 <= k < clock_range(),
    ensures
        v.suspend(queue, ticks).wf(),
        v.suspend(queue, ticks).threads.len() == v.threads.len(),
        v.suspend(queue, ticks).waitqs.len() == v.waitqs.len(),
{
    let c = v.current.unwrap();
    lemma_unset_current(v);
    let u = KernelView { current: None, ..v };
    let tcb = Tcb { timer_expired: false, canceled: false, ..v.threads[c as int] };
    lemma_limbo_update(u, c, tcb, Seq::empty());
    let a = KernelView {
        current: None,
        threads: v.threads.update(c as int, tcb),
        swaps: v.swaps.update(c as int, Seq::empty()),
        ..v
    };
    assert(a == KernelView {
        threads: u.threads.update(c as int, tcb),
        swaps: u.swaps.update(c as int, Seq::empty()),
        ..u
    });
    let b = match ticks {
        Some(k) => a.arm(c, k),
        None => a,
    };
    if let Some(k) = ticks {
        lemma_arm(a, c, k);
    }
    let d = match queue {
        Some(w) => b.enter_queue(c, w),
        None => b.settle(c, ThreadState::Sleeping),
    };
    match queue {
        Some(w) => {
            lemma_enter_queue(b, c, w);
        },
        None => {
            lemma_settle(b, c, ThreadState::Sleeping);
        },
    }
    lemma_dispatch(d, None);
}

/// Yielding keeps the invariant.
pub proof fn lemma_yield(v: KernelView)
    requires
        v.wf(),
    ensures
        v.yield_now().wf(),
        v.yield_now().threads.len() == v.threads.len(),
        v.yield_now().waitqs.len() == v.waitqs.len(),
{
    match v.current {
        Some(c) => {
            lemma_unset_current(v);
            let u = KernelView { current: None, ..v };
            lemma_enqueue_ready(u, c);
            lemma_dispatch(u.enqueue_ready(c), None);
        },
        None => {
            lemma_dispatch(v, None);
        },
    }
}

/// Waking the threads that are due keeps the invariant; with fuel for the
/// whole timeout queue no deadline on the next tick is left.
pub proof fn lemma_expire(v: KernelView, fuel: nat)
    requires
        v.wf(),
    ensures
        v.expire(fuel).wf(),
        v.expire(fuel).threads.len() == v.threads.len(),
        v.expire(fuel).waitqs.len() == v.waitqs.len(),
        v.expire(fuel).now == v.now,
        v.expire(fuel).current == v.current,
        v.expire(fuel).irq_locked == v.irq_locked,
        fuel >= v.timeouts.len() ==> !v.expire(fuel).due(),
    decreases fuel,
{
    if fuel > 0 && v.due() {
        let t = v.timeouts[0];
        assert(v.threads[t as int].timed);
        lemma_wake(v, t, WakeCause::Expired, Seq::empty());
        lemma_expire(v.wake(t, WakeCause::Expired, Seq::empty()), (fuel - 1) as nat);
    }
}

/// A tick keeps the invariant.
pub proof fn lemma_tick(v: KernelView)
    requires
        v.wf(),
    ensures
        v.tick().wf(),
        v.tick().threads.len() == v.threads.len(),
        v.tick().waitqs.len() == v.waitqs.len(),
{
    if !v.irq_locked {
        lemma_expire(v, v.timeouts.len());
        let e = v.expire(v.timeouts.len());
        lemma_advance(e);
        let a = KernelView { now: clock_add(v.now, 1), ..e };
        let n = KernelView { resched: a.resched || a.outranked(), ..a };
        assert(n.ready_keys() =~= a.ready_keys());
        assert(n.timeout_keys() =~= a.timeout_keys());
        assert(n.inv_ready(None));
        assert(n.inv_timeouts(None));
    }
}

/// Preempting keeps the invariant.
pub proof fn lemma_preempt(v: KernelView)
    requires
        v.wf(),
    ensures
        v.preempt().wf(),
        v.preempt().threads.len() == v.threads.len(),
        v.preempt().waitqs.len() == v.waitqs.len(),
{
    match v.current {
        None => {
            lemma_dispatch(v, None);
        },
        Some(c) => {
            if v.threads[c as int].class == Priority::Preemptive {
                lemma_yield(v);
            }
        },
    }
}

/// Clearing or setting the reschedule flag or the interrupt lock keeps the
/// invariant.
pub proof fn lemma_flags(v: KernelView, resched: bool, irq_locked: bool)
    requires
        v.wf(),
    ensures
        (KernelView { resched, irq_locked, ..v }).wf(),
{
    let n = KernelView { resched, irq_locked, ..v };
    assert(n.ready_keys() =~= v.ready_keys());
    assert(n.timeout_keys() =~= v.timeout_keys());
    assert(n.inv_tables());
    assert(n.inv_current(None));
    assert(n.inv_ready(None));
    assert(n.inv_waitqs(None));
    assert(n.inv_timeouts(None));
}

/// Leaving the interrupt handler keeps the invariant.
pub proof fn lemma_isr_exit(v: KernelView)
    requires
        v.wf(),
    ensures
        v.isr_exit().wf(),
        v.isr_exit().threads.len() == v.threads.len(),
        v.isr_exit().waitqs.len() == v.waitqs.len(),
{
    if v.resched {
        lemma_flags(v, false, v.irq_locked);
        lemma_preempt(KernelView { resched: false, ..v });
    }
}

/// The waiters of a wait queue are blocked threads.
pub proof fn lemma_waiter_blocked(v: KernelView, w: WaitQueueId, i: int)
    requires
        v.wf(),
        w < v.waitqs.len(),
        0 <= i < v.waitqs[w as int].len(),
    ensures
        v.blocked(v.waitqs[w as int][i]),
        v.threads[v.waitqs[w as int][i] as int].state == ThreadState::Waiting,
        v.threads[v.waitqs[w as int][i] as int].waiting_on == w,
{
    let q = v.waitqs[w as int][i];
    assert(q < v.threads.len());
}

/// Waking the oldest waiter keeps the invariant.
pub proof fn lemma_wake_first(v: KernelView, w: WaitQueueId, swap: Seq<u8>)
    requires
        v.wf(),
    ensures
        v.wake_first(w, swap).wf(),
        v.wake_first(w, swap).threads.len() == v.threads.len(),
        v.wake_first(w, swap).waitqs.len() == v.waitqs.len(),
{
    if w < v.waitqs.len() && v.waitqs[w as int].len() > 0 {
        lemma_waiter_blocked(v, w, 0);
        lemma_wake(v, v.waitqs[w as int][0], WakeCause::Event, swap);
    }
}

/// Waking the waiter of the highest priority keeps the invariant.
pub proof fn lemma_wake_highest(v: KernelView, w: WaitQueueId, swap: Seq<u8>)
    requires
        v.wf(),
    ensures
        v.wake_highest(w, swap).wf(),
        v.wake_highest(w, swap).threads.len() == v.threads.len(),
        v.wake_highest(w, swap).waitqs.len() == v.waitqs.len(),
{
    if w < v.waitqs.len() && v.waitqs[w as int].len() > 0 {
        lemma_first_max(v.waiter_keys(w));
        let i = first_max(v.waiter_keys(w));
        lemma_waiter_blocked(v, w, i);
        lemma_wake(v, v.waitqs[w as int][i], WakeCause::Event, swap);
    }
}

/// Waking a waiter shortens its queue by one and leaves the others alone.
pub proof fn lemma_wake_queue(v: KernelView, w: WaitQueueId, i: int, cause: WakeCause, swap: Seq<u8>)
    requires
        v.wf(),
        w < v.waitqs.len(),
        0 <= i < v.waitqs[w as int].len(),
    ensures
        v.wake(v.waitqs[w as int][i], cause, swap).waitqs == v.waitqs.update(
            w as int,
            v.waitqs[w as int].remove(i),
        ),
{
    let t = v.waitqs[w as int][i];
    lemma_waiter_blocked(v, w, i);
    lemma_position(v.waitqs[w as int], t);
    let p = position(v.waitqs[w as int], t);
    assert(v.waitqs[w as int].contains(t));
    assert(p == i);
}

/// Waking every waiter keeps the invariant; with fuel for the whole queue
/// the queue is then empty.
pub proof fn lemma_wake_all(v: KernelView, w: WaitQueueId, cause: WakeCause, swap: Seq<u8>, fuel: nat)
    requires
        v.wf(),
    ensures
        v.wake_all(w, cause, swap, fuel).wf(),
        v.wake_all(w, cause, swap, fuel).threads.len() == v.threads.len(),
        v.wake_all(w, cause, swap, fuel).waitqs.len() == v.waitqs.len(),
        v.wake_all(w, cause, swap, fuel).current == v.current,
        w < v.waitqs.len() && fuel >= v.waitqs[w as int].len() ==> v.wake_all(
            w,
            cause,
            swap,
            fuel,
        ).waitqs[w as int].len() == 0,
    decreases fuel,
{
    if fuel > 0 && w < v.waitqs.len() && v.waitqs[w as int].len() > 0 {
        lemma_waiter_blocked(v, w, 0);
        let t = v.waitqs[w as int][0];
        lemma_wake(v, t, cause, swap);
        lemma_wake_queue(v, w, 0, cause, swap);
        lemma_wake_all(v.wake(t, cause, swap), w, cause, swap, (fuel - 1) as nat);
    }
}

/// Adding a wait queue keeps the invariant.
pub proof fn lemma_add_queue(v: KernelView)
    requires
        v.wf(),
    ensures
        v.add_queue().wf(),
{
    let n = v.add_queue();
    assert(n.ready_keys() =~= v.ready_keys());
    assert(n.timeout_keys() =~= v.timeout_keys());
    assert(n.inv_tables());
    assert(n.inv_current(None));
    assert(n.inv_ready(None));
    assert(n.inv_waitqs(None)) by {
        assert forall|q: int, i: int|
            0 <= q < n.waitqs.len() && 0 <= i < n.waitqs[q].len() implies {
            let x = #[trigger] n.waitqs[q][i];
            x < n.threads.len() && n.threads[x as int].state == ThreadState::Waiting
                && n.threads[x as int].waiting_on == q
        } by {
            assert(n.waitqs[q][i] == v.waitqs[q][i]);
        }
    }
    assert(n.inv_timeouts(None));
}

/// Creating a thread keeps the invariant.
pub proof fn lemma_create(
    v: KernelView,
    stack: Seq<u8>,
    priority: u8,
    class: Priority,
    symbol: u8,
    sp: u16,
)
    requires
        v.wf(),
        v.waitqs.len() < usize::MAX,
        stack.len() <= u16::MAX,
    ensures
        v.create(stack, priority, class, symbol, sp).wf(),
{
    let n = v.create(stack, priority, class, symbol, sp);
    assert(n.ready_keys() =~= v.ready_keys());
    assert(n.timeout_keys() =~= v.timeout_keys());
    assert(n.inv_tables());
    assert(n.inv_current(None));
    assert(n.inv_ready(None)) by {
        assert forall|i: int| 0 <= i < n.ready.len() implies {
            let r = #[trigger] n.ready[i];
            r < n.threads.len() && n.threads[r as int].state == ThreadState::Ready
        } by {
            assert(v.ready[i] < v.threads.len());
        }
    }
    assert(n.inv_waitqs(None)) by {
        assert forall|q: int, i: int|
            0 <= q < n.waitqs.len() && 0 <= i < n.waitqs[q].len() implies {
            let x = #[trigger] n.waitqs[q][i];
            x < n.threads.len() && n.threads[x as int].state == ThreadState::Waiting
                && n.threads[x as int].waiting_on == q
        } by {
            assert(n.waitqs[q][i] == v.waitqs[q][i]);
            assert(v.waitqs[q][i] < v.threads.len());
        }
        assert forall|x: ThreadId|
            x < n.threads.len() && (#[trigger] n.threads[x as int]).state
                == ThreadState::Waiting implies n.threads[x as int].waiting_on < n.waitqs.len()
            && n.waitqs[n.threads[x as int].waiting_on as int].contains(x) by {
            let q = v.threads[x as int].waiting_on as int;
            assert(v.waitqs[q].contains(x));
            assert(n.waitqs[q] == v.waitqs[q]);
        }
    }
    assert(n.inv_timeouts(None)) by {
        assert forall|i: int| 0 <= i < n.timeouts.len() implies {
            let x = #[trigger] n.timeouts[i];
            &&& x < n.threads.len()
            &&& n.threads[x as int].timed
            &&& n.left(x) >= 1
            &&& n.threads[x as int].state == ThreadState::Waiting || n.threads[x as int].state
                == ThreadState::Sleeping
        } by {
            assert(v.timeouts[i] < v.threads.len());
        }
    }
}

/// Starting a created thread keeps the invariant.
pub proof fn lemma_start(v: KernelView, t: ThreadId)
    requires
        v.wf(),
        t < v.threads.len(),
        v.threads[t as int].state == ThreadState::Initialized,
    ensures
        v.enqueue_ready(t).wf(),
{
    lemma_set_apart(v, t);
    lemma_enqueue_ready(v, t);
}

/// Terminating the running thread keeps the invariant.
pub proof fn lemma_exit(v: KernelView)
    requires
        v.wf(),
        v.current is Some,
    ensures
        v.exit().wf(),
        v.exit().threads.len() == v.threads.len(),
        v.exit().waitqs.len() == v.waitqs.len(),
{
    let c = v.current.unwrap();
    lemma_unset_current(v);
    let u = KernelView { current: None, ..v };
    lemma_settle(u, c, ThreadState::Terminated);
    let a = u.settle(c, ThreadState::Terminated);
    let j = v.threads[c as int].join_queue;
    lemma_wake_all(a, j, WakeCause::Event, Seq::empty(), a.waitqs[j as int].len());
    lemma_dispatch(a.wake_all(j, WakeCause::Event, Seq::empty(), a.waitqs[j as int].len()), None);
}

/// Taking the wake result keeps the invariant.
pub proof fn lemma_collect(v: KernelView)
    requires
        v.wf(),
        v.current is Some,
    ensures
        v.collect().wf(),
{
    let c = v.current.unwrap();
    lemma_unset_current(v);
    let u = KernelView { current: None, ..v };
    let tcb = Tcb { timer_expired: false, canceled: false, ..v.threads[c as int] };
    lemma_limbo_update(u, c, tcb, Seq::empty());
    let a = KernelView {
        threads: u.threads.update(c as int, tcb),
        swaps: u.swaps.update(c as int, Seq::empty()),
        ..u
    };
    let n = v.collect();
    assert(n == KernelView { current: Some(c), ..a });
    assert(n.ready_keys() =~= a.ready_keys());
    assert(n.timeout_keys() =~= a.timeout_keys());
    assert(n.inv_tables());
    assert(n.inv_current(None));
    assert(n.inv_ready(None)) by {
        assert forall|t: ThreadId|
            t < n.threads.len() && (#[trigger] n.threads[t as int]).state
                == ThreadState::Ready implies n.ready.contains(t) by {
            assert(t != c);
        }
    }
    assert(n.inv_waitqs(None)) by {
        assert forall|x: ThreadId|
            x < n.threads.len() && (#[trigger] n.threads[x as int]).state
                == ThreadState::Waiting implies n.threads[x as int].waiting_on < n.waitqs.len()
            && n.waitqs[n.threads[x as int].waiting_on as int].contains(x) by {
            assert(x != c);
        }
    }
    assert(n.inv_timeouts(None)) by {
        assert forall|i: int| 0 <= i < n.timeouts.len() implies {
            let x = #[trigger] n.timeouts[i];
            &&& x < n.threads.len()
            &&& n.threads[x as int].timed
            &&& n.left(x) >= 1
            &&& n.threads[x as int].state == ThreadState::Waiting || n.threads[x as int].state
                == ThreadState::Sleeping
        } by {
            assert(a.threads[a.timeouts[i] as int].timed);
        }
    }
}


/// A change to what the scheduler does not read keeps the invariant: the
/// stacks, and a saved stack pointer.
pub proof fn lemma_unscheduled(v: KernelView, n: KernelView)
    requires
        v.wf(),
        n.threads.len() == v.threads.len(),
        n.stacks.len() == v.stacks.len(),
        forall|t: int| 0 <= t < n.stacks.len() ==> (#[trigger] n.stacks[t]).len() <= u16::MAX,
        forall|t: int|
            0 <= t < v.threads.len() ==> (#[trigger] n.threads[t]) == (Tcb {
                sp: n.threads[t].sp,
                ..v.threads[t]
            }),
        n == (KernelView { threads: n.threads, stacks: n.stacks, ..v }),
    ensures
        n.wf(),
{
    assert(n.ready_keys() =~= v.ready_keys()) by {
        assert forall|i: int| 0 <= i < n.ready.len() implies n.ready_keys()[i] == v.ready_keys()[i] by {
            assert(v.ready[i] < v.threads.len());
        }
    }
    assert(n.timeout_keys() =~= v.timeout_keys()) by {
        assert forall|i: int| 0 <= i < n.timeouts.len() implies n.timeout_keys()[i]
            == v.timeout_keys()[i] by {
            assert(v.timeouts[i] < v.threads.len());
        }
    }
    assert(n.inv_tables()) by {
        assert forall|t: int| 0 <= t < n.threads.len() implies (#[trigger] n.threads[t]).join_queue
            < n.waitqs.len() by {
            assert(v.threads[t].join_queue < v.waitqs.len());
        }
    }
    assert(n.inv_current(None)) by {
        assert forall|t: ThreadId|
            t < n.threads.len() && (#[trigger] n.threads[t as int]).state
                == ThreadState::Running implies n.current == Some(t) by {
            assert(v.threads[t as int].state == ThreadState::Running);
        }
    }
    assert(n.inv_ready(None)) by {
        assert forall|i: int| 0 <= i < n.ready.len() implies {
            let r = #[trigger] n.ready[i];
            r < n.threads.len() && n.threads[r as int].state == ThreadState::Ready
        } by {
            assert(v.ready[i] < v.threads.len());
        }
        assert forall|t: ThreadId|
            t < n.threads.len() && (#[trigger] n.threads[t as int]).state
                == ThreadState::Ready implies n.ready.contains(t) by {
            assert(v.threads[t as int].state == ThreadState::Ready);
        }
    }
    assert(n.inv_waitqs(None)) by {
        assert forall|q: int, i: int|
            0 <= q < n.waitqs.len() && 0 <= i < n.waitqs[q].len() implies {
            let x = #[trigger] n.waitqs[q][i];
            x < n.threads.len() && n.threads[x as int].state == ThreadState::Waiting
                && n.threads[x as int].waiting_on == q
        } by {
            assert(v.waitqs[q][i] < v.threads.len());
        }
        assert forall|x: ThreadId|
            x < n.threads.len() && (#[trigger] n.threads[x as int]).state
                == ThreadState::Waiting implies n.threads[x as int].waiting_on < n.waitqs.len()
            && n.waitqs[n.threads[x as int].waiting_on as int].contains(x) by {
            assert(v.threads[x as int].state == ThreadState::Waiting);
        }
    }
    assert(n.inv_timeouts(None)) by {
        assert forall|i: int| 0 <= i < n.timeouts.len() implies {
            let x = #[trigger] n.timeouts[i];
            &&& x < n.threads.len()
            &&& n.threads[x as int].timed
            &&& n.left(x) >= 1
            &&& n.threads[x as int].state == ThreadState::Waiting || n.threads[x as int].state
                == ThreadState::Sleeping
        } by {
            assert(v.timeouts[i] < v.threads.len());
        }
        assert forall|t: ThreadId|
            t < n.threads.len() && (#[trigger] n.threads[t as int]).timed implies n.timeouts.contains(
            t,
        ) by {
            assert(v.threads[t as int].timed);
        }
    }
}

/// Whether interrupts are disabled makes no difference to a yield.
pub proof fn lemma_yield_with_lock(v: KernelView, locked: bool)
    ensures
        (KernelView { irq_locked: locked, ..v }).yield_now() == (KernelView {
            irq_locked: locked,
            ..v.yield_now()
        }),
{
    let w = KernelView { irq_locked: locked, ..v };
    match v.current {
        Some(c) => {
            let vu = KernelView { current: None, ..v };
            let wu = KernelView { current: None, ..w };
            assert(wu.ready_keys() =~= vu.ready_keys());
            let ve = vu.enqueue_ready(c);
            let we = wu.enqueue_ready(c);
            assert(we =~= (KernelView { irq_locked: locked, ..ve }));
            assert(we.dispatch() =~= (KernelView { irq_locked: locked, ..ve.dispatch() }));
        },
        None => {
            assert(w.dispatch() =~= (KernelView { irq_locked: locked, ..v.dispatch() }));
        },
    }
}

} // verus!
