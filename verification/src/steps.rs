//! Each step of a kernel transition keeps the invariant.

use crate::model::{clock_add, clock_range, KernelView};
use crate::queue::{
    first_below, lemma_first_below, lemma_insert_members, lemma_insert_sorted, lemma_position,
    lemma_remove_members, lemma_remove_sorted, position, sorted_desc, without,
};
use crate::thread::{Tcb, ThreadId, ThreadState, WaitQueueId};
use vstd::prelude::*;

verus! {

/// A thread set apart that has no deadline is in no queue at all.
pub proof fn lemma_limbo_absent(v: KernelView, t: ThreadId)
    requires
        v.inv(Some(t)),
    ensures
        !v.ready.contains(t),
        forall|w: int| 0 <= w < v.waitqs.len() ==> !(#[trigger] v.waitqs[w]).contains(t),
        !v.threads[t as int].timed ==> !v.timeouts.contains(t),
        v.current != Some(t),
{
    if v.ready.contains(t) {
        let i = choose|i: int| 0 <= i < v.ready.len() && v.ready[i] == t;
        assert(!KernelView::apart(Some(t), v.ready[i]));
    }
    assert forall|w: int| 0 <= w < v.waitqs.len() implies !(#[trigger] v.waitqs[w]).contains(t) by {
        if v.waitqs[w].contains(t) {
            let i = choose|i: int| 0 <= i < v.waitqs[w].len() && v.waitqs[w][i] == t;
            assert(!KernelView::apart(Some(t), v.waitqs[w][i]));
        }
    }
    if v.timeouts.contains(t) {
        let i = choose|i: int| 0 <= i < v.timeouts.len() && v.timeouts[i] == t;
        assert(v.threads[v.timeouts[i] as int].timed);
    }
}

/// A thread that is set apart and has no deadline may become ready.
pub proof fn lemma_enqueue_ready(v: KernelView, t: ThreadId)
    requires
        v.inv(Some(t)),
        !v.threads[t as int].timed,
    ensures
        v.enqueue_ready(t).inv(None),
{
    let n = v.enqueue_ready(t);
    let keys = v.ready_keys();
    let at = first_below(keys, v.prio(t));
    lemma_limbo_absent(v, t);
    lemma_first_below(keys, v.prio(t));
    lemma_insert_members(v.ready, at, t);
    lemma_insert_sorted(keys, v.prio(t));
    assert(n.ready_keys() =~= keys.insert(at, v.prio(t)));
    assert(n.timeout_keys() =~= v.timeout_keys());
    assert(n.inv_tables());
    assert(n.inv_current(None));
    assert(n.inv_ready(None)) by {
        assert forall|i: int| 0 <= i < n.ready.len() implies {
            let r = #[trigger] n.ready[i];
            r < n.threads.len() && n.threads[r as int].state == ThreadState::Ready
        } by {
            if i < at {
                assert(n.ready[i] == v.ready[i]);
            } else if i > at {
                assert(n.ready[i] == v.ready[i - 1]);
            }
        }
    }
    assert(n.inv_waitqs(None)) by {
        assert forall|w: int, i: int|
            0 <= w < n.waitqs.len() && 0 <= i < n.waitqs[w].len() implies {
            let q = #[trigger] n.waitqs[w][i];
            q < n.threads.len() && n.threads[q as int].state == ThreadState::Waiting
                && n.threads[q as int].waiting_on == w
        } by {
            assert(v.waitqs[w].contains(v.waitqs[w][i]));
        }
    }
    assert(n.inv_timeouts(None)) by {
        assert forall|i: int| 0 <= i < n.timeouts.len() implies {
            let x = #[trigger] n.timeouts[i];
            &&& x < n.threads.len()
            &&& n.threads[x as int].timed
            &&& n.left(x) >= 1
            &&& n.threads[x as int].state == ThreadState::Waiting || n.threads[x as int].state
                == ThreadState::Sleeping
        } by {
            assert(v.timeouts.contains(v.timeouts[i]));
        }
    }
}

/// Dispatching keeps the invariant, whichever thread is set apart.
pub proof fn lemma_dispatch(v: KernelView, limbo: Option<ThreadId>)
    requires
        v.inv(limbo),
    ensures
        v.dispatch().inv(limbo),
{
    if v.current is None && v.ready.len() > 0 {
        let n = v.dispatch();
        let h = v.ready[0];
        lemma_remove_members(v.ready, 0);
        lemma_remove_sorted(v.ready_keys(), 0);
        assert(n.ready_keys() =~= v.ready_keys().remove(0));
        assert(n.timeout_keys() =~= v.timeout_keys());
        assert(n.inv_tables());
        assert(n.inv_current(limbo));
        assert(n.inv_ready(limbo)) by {
            assert forall|i: int| 0 <= i < n.ready.len() implies {
                let r = #[trigger] n.ready[i];
                r < n.threads.len() && n.threads[r as int].state == ThreadState::Ready
                    && !KernelView::apart(limbo, r)
            } by {
                assert(n.ready[i] == v.ready[i + 1]);
                assert(n.ready.contains(n.ready[i]));
            }
        }
        assert(n.inv_waitqs(limbo)) by {
            assert forall|w: int, i: int|
                0 <= w < n.waitqs.len() && 0 <= i < n.waitqs[w].len() implies {
                let q = #[trigger] n.waitqs[w][i];
                q < n.threads.len() && n.threads[q as int].state == ThreadState::Waiting
                    && n.threads[q as int].waiting_on == w && !KernelView::apart(limbo, q)
            } by {
                let q = v.waitqs[w][i];
                assert(v.threads[q as int].state == ThreadState::Waiting);
            }
        }
        assert(n.inv_timeouts(limbo)) by {
            assert forall|i: int| 0 <= i < n.timeouts.len() implies {
                let x = #[trigger] n.timeouts[i];
                &&& x < n.threads.len()
                &&& n.threads[x as int].timed
                &&& n.left(x) >= 1
                &&& KernelView::apart(limbo, x) || n.threads[x as int].state
                    == ThreadState::Waiting || n.threads[x as int].state == ThreadState::Sleeping
            } by {
                let x = v.timeouts[i];
                assert(v.threads[x as int].timed);
            }
        }
    }
}

/// Taking the running thread off the processor sets it apart; it has no
/// deadline.
pub proof fn lemma_unset_current(v: KernelView)
    requires
        v.inv(None),
        v.current is Some,
    ensures
        (KernelView { current: None, ..v }).inv(v.current),
        !v.threads[v.current.unwrap() as int].timed,
{
    let c = v.current.unwrap();
    let n = KernelView { current: None, ..v };
    if v.threads[c as int].timed {
        assert(v.timeouts.contains(c));
        let i = choose|i: int| 0 <= i < v.timeouts.len() && v.timeouts[i] == c;
        assert(v.threads[v.timeouts[i] as int].state != ThreadState::Running);
    }
    assert(n.ready_keys() =~= v.ready_keys());
    assert(n.timeout_keys() =~= v.timeout_keys());
    assert(n.inv_current(Some(c)));
    assert(n.inv_ready(Some(c))) by {
        assert forall|i: int| 0 <= i < n.ready.len() implies {
            let r = #[trigger] n.ready[i];
            r < n.threads.len() && n.threads[r as int].state == ThreadState::Ready
                && !KernelView::apart(Some(c), r)
        } by {
            assert(v.threads[v.ready[i] as int].state == ThreadState::Ready);
        }
    }
    assert(n.inv_waitqs(Some(c))) by {
        assert forall|w: int, i: int|
            0 <= w < n.waitqs.len() && 0 <= i < n.waitqs[w].len() implies {
            let q = #[trigger] n.waitqs[w][i];
            q < n.threads.len() && n.threads[q as int].state == ThreadState::Waiting
                && n.threads[q as int].waiting_on == w && !KernelView::apart(Some(c), q)
        } by {
            assert(v.threads[v.waitqs[w][i] as int].state == ThreadState::Waiting);
        }
    }
    assert(n.inv_timeouts(Some(c)));
}


/// A blocked thread that leaves its wait queue and the timeout queue is set
/// apart, without a deadline.
pub proof fn lemma_detach(v: KernelView, t: ThreadId)
    requires
        v.inv(None),
        v.blocked(t),
    ensures
        v.leave_queue(t).disarm(t).inv(Some(t)),
        !v.leave_queue(t).disarm(t).threads[t as int].timed,
        v.leave_queue(t).disarm(t).threads.len() == v.threads.len(),
{
    let a = v.leave_queue(t);
    let n = a.disarm(t);
    let limbo = Some(t);
    // the wait queues
    if v.threads[t as int].state == ThreadState::Waiting {
        let w = v.threads[t as int].waiting_on as int;
        lemma_position(v.waitqs[w], t);
        lemma_remove_members(v.waitqs[w], position(v.waitqs[w], t));
    }
    assert(n.inv_waitqs(limbo)) by {
        assert forall|w: int, i: int|
            0 <= w < n.waitqs.len() && 0 <= i < n.waitqs[w].len() implies {
            let q = #[trigger] n.waitqs[w][i];
            q < n.threads.len() && n.threads[q as int].state == ThreadState::Waiting
                && n.threads[q as int].waiting_on == w && !KernelView::apart(limbo, q)
        } by {
            let q = n.waitqs[w][i];
            assert(n.waitqs[w].contains(q));
            if v.threads[t as int].state == ThreadState::Waiting && w
                == v.threads[t as int].waiting_on {
                assert(v.waitqs[w].contains(q));
                let k = choose|k: int| 0 <= k < v.waitqs[w].len() && v.waitqs[w][k] == q;
                assert(v.threads[v.waitqs[w][k] as int].state == ThreadState::Waiting);
            } else {
                assert(v.waitqs[w][i] == q);
                assert(v.threads[v.waitqs[w][i] as int].waiting_on == w);
            }
        }
        assert forall|x: ThreadId|
            x < n.threads.len() && !KernelView::apart(limbo, x) && (#[trigger] n.threads[x as int]).state
                == ThreadState::Waiting implies n.threads[x as int].waiting_on < n.waitqs.len()
            && n.waitqs[n.threads[x as int].waiting_on as int].contains(x) by {
            assert(v.threads[x as int].state == ThreadState::Waiting);
        }
    }
    // the timeout queue
    let keys = v.timeout_keys();
    if v.timeouts.contains(t) {
        let p = position(v.timeouts, t);
        lemma_position(v.timeouts, t);
        lemma_remove_members(v.timeouts, p);
        lemma_remove_sorted(keys, p);
        assert(n.timeout_keys() =~= keys.remove(p)) by {
            assert forall|i: int| 0 <= i < n.timeouts.len() implies n.timeout_keys()[i]
                == keys.remove(p)[i] by {
                let x = n.timeouts[i];
                assert(n.timeouts.contains(x));
            }
        }
    } else {
        assert(n.timeout_keys() =~= keys) by {
            assert forall|i: int| 0 <= i < n.timeouts.len() implies n.timeout_keys()[i]
                == keys[i] by {
                assert(v.timeouts.contains(v.timeouts[i]));
            }
        }
    }
    assert(n.inv_timeouts(limbo)) by {
        assert forall|i: int| 0 <= i < n.timeouts.len() implies {
            let x = #[trigger] n.timeouts[i];
            &&& x < n.threads.len()
            &&& n.threads[x as int].timed
            &&& n.left(x) >= 1
            &&& KernelView::apart(limbo, x) || n.threads[x as int].state == ThreadState::Waiting
                || n.threads[x as int].state == ThreadState::Sleeping
        } by {
            let x = n.timeouts[i];
            assert(n.timeouts.contains(x));
            assert(v.timeouts.contains(x));
            let k = choose|k: int| 0 <= k < v.timeouts.len() && v.timeouts[k] == x;
            assert(v.threads[v.timeouts[k] as int].timed);
        }
        assert forall|x: ThreadId|
            x < n.threads.len() && (#[trigger] n.threads[x as int]).timed implies n.timeouts.contains(
            x,
        ) by {
            assert(v.threads[x as int].timed);
        }
    }
    // the ready queue and the running thread
    assert(n.ready_keys() =~= v.ready_keys());
    assert(n.inv_ready(limbo)) by {
        assert forall|i: int| 0 <= i < n.ready.len() implies {
            let r = #[trigger] n.ready[i];
            r < n.threads.len() && n.threads[r as int].state == ThreadState::Ready
                && !KernelView::apart(limbo, r)
        } by {
            assert(v.threads[v.ready[i] as int].state == ThreadState::Ready);
        }
    }
    assert(n.inv_current(limbo));
    assert(n.inv_tables());
}

/// The control block of the thread set apart may change in all but its
/// deadline and its join queue, and so may the value it was handed.
pub proof fn lemma_limbo_update(v: KernelView, t: ThreadId, tcb: Tcb, swap: Seq<u8>)
    requires
        v.inv(Some(t)),
        tcb.join_queue == v.threads[t as int].join_queue,
        tcb.timed == v.threads[t as int].timed,
        tcb.deadline == v.threads[t as int].deadline,
    ensures
        (KernelView {
            threads: v.threads.update(t as int, tcb),
            swaps: v.swaps.update(t as int, swap),
            ..v
        }).inv(Some(t)),
{
    let n = KernelView {
        threads: v.threads.update(t as int, tcb),
        swaps: v.swaps.update(t as int, swap),
        ..v
    };
    let limbo = Some(t);
    lemma_limbo_absent(v, t);
    assert(n.ready_keys() =~= v.ready_keys()) by {
        assert forall|i: int| 0 <= i < n.ready.len() implies n.ready_keys()[i] == v.ready_keys()[i] by {
            assert(v.ready.contains(v.ready[i]));
        }
    }
    assert(n.timeout_keys() =~= v.timeout_keys());
    assert(n.inv_tables());
    assert(n.inv_current(limbo));
    assert(n.inv_ready(limbo)) by {
        assert forall|i: int| 0 <= i < n.ready.len() implies {
            let r = #[trigger] n.ready[i];
            r < n.threads.len() && n.threads[r as int].state == ThreadState::Ready
                && !KernelView::apart(limbo, r)
        } by {
            assert(!KernelView::apart(limbo, v.ready[i]));
        }
    }
    assert(n.inv_waitqs(limbo)) by {
        assert forall|w: int, i: int|
            0 <= w < n.waitqs.len() && 0 <= i < n.waitqs[w].len() implies {
            let q = #[trigger] n.waitqs[w][i];
            q < n.threads.len() && n.threads[q as int].state == ThreadState::Waiting
                && n.threads[q as int].waiting_on == w && !KernelView::apart(limbo, q)
        } by {
            assert(!KernelView::apart(limbo, v.waitqs[w][i]));
        }
    }
    assert(n.inv_timeouts(limbo)) by {
        assert forall|i: int| 0 <= i < n.timeouts.len() implies {
            let x = #[trigger] n.timeouts[i];
            &&& x < n.threads.len()
            &&& n.threads[x as int].timed
            &&& n.left(x) >= 1
            &&& KernelView::apart(limbo, x) || n.threads[x as int].state == ThreadState::Waiting
                || n.threads[x as int].state == ThreadState::Sleeping
        } by {
            assert(v.threads[v.timeouts[i] as int].timed);
        }
    }
}

/// The thread set apart may be given a deadline.
pub proof fn lemma_arm(v: KernelView, t: ThreadId, ticks: int)
    requires
        v.inv(Some(t)),
        !v.threads[t as int].timed,
        1 <= ticks < clock_range(),
    ensures
        v.arm(t, ticks).inv(Some(t)),
        v.arm(t, ticks).left(t) == ticks,
        v.arm(t, ticks).threads[t as int].timed,
{
    let n = v.arm(t, ticks);
    let limbo = Some(t);
    let keys = v.timeout_keys();
    let at = first_below(keys, -ticks);
    lemma_limbo_absent(v, t);
    lemma_first_below(keys, -ticks);
    lemma_insert_members(v.timeouts, at, t);
    lemma_insert_sorted(keys, -ticks);
    assert(n.left(t) == ticks);
    assert(n.timeout_keys() =~= keys.insert(at, -ticks)) by {
        assert forall|i: int| 0 <= i < n.timeouts.len() implies n.timeout_keys()[i] == keys.insert(
            at,
            -ticks,
        )[i] by {
            if i < at {
                assert(v.timeouts.contains(v.timeouts[i]));
            } else if i > at {
                assert(v.timeouts.contains(v.timeouts[i - 1]));
            }
        }
    }
    assert(n.ready_keys() =~= v.ready_keys()) by {
        assert forall|i: int| 0 <= i < n.ready.len() implies n.ready_keys()[i] == v.ready_keys()[i] by {
            assert(v.ready.contains(v.ready[i]));
        }
    }
    assert(n.inv_tables());
    assert(n.inv_current(limbo));
    assert(n.inv_ready(limbo)) by {
        assert forall|i: int| 0 <= i < n.ready.len() implies {
            let r = #[trigger] n.ready[i];
            r < n.threads.len() && n.threads[r as int].state == ThreadState::Ready
                && !KernelView::apart(limbo, r)
        } by {
            assert(!KernelView::apart(limbo, v.ready[i]));
        }
    }
    assert(n.inv_waitqs(limbo)) by {
        assert forall|w: int, i: int|
            0 <= w < n.waitqs.len() && 0 <= i < n.waitqs[w].len() implies {
            let q = #[trigger] n.waitqs[w][i];
            q < n.threads.len() && n.threads[q as int].state == ThreadState::Waiting
                && n.threads[q as int].waiting_on == w && !KernelView::apart(limbo, q)
        } by {
            assert(!KernelView::apart(limbo, v.waitqs[w][i]));
        }
    }
    assert(n.inv_timeouts(limbo)) by {
        assert forall|i: int| 0 <= i < n.timeouts.len() implies {
            let x = #[trigger] n.timeouts[i];
            &&& x < n.threads.len()
            &&& n.threads[x as int].timed
            &&& n.left(x) >= 1
            &&& KernelView::apart(limbo, x) || n.threads[x as int].state == ThreadState::Waiting
                || n.threads[x as int].state == ThreadState::Sleeping
        } by {
            if i < at {
                assert(v.threads[v.timeouts[i] as int].timed);
            } else if i > at {
                assert(v.threads[v.timeouts[i - 1] as int].timed);
            }
        }
    }
}

/// The thread set apart may enter a wait queue.
pub proof fn lemma_enter_queue(v: KernelView, t: ThreadId, w: WaitQueueId)
    requires
        v.inv(Some(t)),
        w < v.waitqs.len(),
    ensures
        v.enter_queue(t, w).inv(None),
{
    let n = v.enter_queue(t, w);
    lemma_limbo_absent(v, t);
    assert(n.ready_keys() =~= v.ready_keys()) by {
        assert forall|i: int| 0 <= i < n.ready.len() implies n.ready_keys()[i] == v.ready_keys()[i] by {
            assert(v.ready.contains(v.ready[i]));
        }
    }
    assert(n.timeout_keys() =~= v.timeout_keys());
    assert(n.inv_tables());
    assert(n.inv_current(None));
    assert(n.inv_ready(None)) by {
        assert forall|i: int| 0 <= i < n.ready.len() implies {
            let r = #[trigger] n.ready[i];
            r < n.threads.len() && n.threads[r as int].state == ThreadState::Ready
        } by {
            assert(!KernelView::apart(Some(t), v.ready[i]));
        }
    }
    assert(n.inv_waitqs(None)) by {
        assert forall|q: int| 0 <= q < n.waitqs.len() implies (#[trigger] n.waitqs[q]).no_duplicates() by {
            if q == w {
                let s = v.waitqs[q];
                assert(s.no_duplicates());
                assert forall|i: int, j: int|
                    0 <= i < n.waitqs[q].len() && 0 <= j < n.waitqs[q].len() && i != j implies n.waitqs[q][i]
                    != n.waitqs[q][j] by {
                    if i < s.len() {
                        assert(s.contains(s[i]));
                    }
                    if j < s.len() {
                        assert(s.contains(s[j]));
                    }
                }
            }
        }
        assert forall|q: int, i: int|
            0 <= q < n.waitqs.len() && 0 <= i < n.waitqs[q].len() implies {
            let x = #[trigger] n.waitqs[q][i];
            x < n.threads.len() && n.threads[x as int].state == ThreadState::Waiting
                && n.threads[x as int].waiting_on == q
        } by {
            if q == w && i == v.waitqs[q].len() {
            } else {
                assert(!KernelView::apart(Some(t), v.waitqs[q][i]));
            }
        }
        assert forall|x: ThreadId|
            x < n.threads.len() && (#[trigger] n.threads[x as int]).state
                == ThreadState::Waiting implies n.threads[x as int].waiting_on < n.waitqs.len()
            && n.waitqs[n.threads[x as int].waiting_on as int].contains(x) by {
            if x == t {
                assert(n.waitqs[w as int][v.waitqs[w as int].len() as int] == t);
            } else {
                let q = v.threads[x as int].waiting_on as int;
                assert(v.waitqs[q].contains(x));
                let k = choose|k: int| 0 <= k < v.waitqs[q].len() && v.waitqs[q][k] == x;
                assert(n.waitqs[q][k] == x);
            }
        }
    }
    assert(n.inv_timeouts(None)) by {
        assert forall|i: int| 0 <= i < n.timeouts.len() implies {
            let x = #[trigger] n.timeouts[i];
            &&& x < n.threads.len()
            &&& n.threads[x as int].timed
            &&& n.left(x) >= 1
            &&& n.threads[x as int].state == ThreadState::Waiting || n.threads[x as int].state
                == ThreadState::Sleeping
        } by {
            assert(v.threads[v.timeouts[i] as int].timed);
        }
    }
}

/// The thread set apart may settle in a state that needs no queue; with a
/// deadline only asleep.
pub proof fn lemma_settle(v: KernelView, t: ThreadId, state: ThreadState)
    requires
        v.inv(Some(t)),
        state == ThreadState::Initialized || state == ThreadState::Terminated || state
            == ThreadState::Sleeping,
        v.threads[t as int].timed ==> state == ThreadState::Sleeping,
    ensures
        v.settle(t, state).inv(None),
{
    let n = v.settle(t, state);
    lemma_limbo_absent(v, t);
    assert(n.ready_keys() =~= v.ready_keys()) by {
        assert forall|i: int| 0 <= i < n.ready.len() implies n.ready_keys()[i] == v.ready_keys()[i] by {
            assert(v.ready.contains(v.ready[i]));
        }
    }
    assert(n.timeout_keys() =~= v.timeout_keys());
    assert(n.inv_tables());
    assert(n.inv_current(None));
    assert(n.inv_ready(None)) by {
        assert forall|i: int| 0 <= i < n.ready.len() implies {
            let r = #[trigger] n.ready[i];
            r < n.threads.len() && n.threads[r as int].state == ThreadState::Ready
        } by {
            assert(!KernelView::apart(Some(t), v.ready[i]));
        }
    }
    assert(n.inv_waitqs(None)) by {
        assert forall|q: int, i: int|
            0 <= q < n.waitqs.len() && 0 <= i < n.waitqs[q].len() implies {
            let x = #[trigger] n.waitqs[q][i];
            x < n.threads.len() && n.threads[x as int].state == ThreadState::Waiting
                && n.threads[x as int].waiting_on == q
        } by {
            assert(!KernelView::apart(Some(t), v.waitqs[q][i]));
        }
    }
    assert(n.inv_timeouts(None)) by {
        assert forall|i: int| 0 <= i < n.timeouts.len() implies {
            let x = #[trigger] n.timeouts[i];
            &&& x < n.threads.len()
            &&& n.threads[x as int].timed
            &&& n.left(x) >= 1
            &&& n.threads[x as int].state == ThreadState::Waiting || n.threads[x as int].state
                == ThreadState::Sleeping
        } by {
            assert(v.threads[v.timeouts[i] as int].timed);
        }
    }
}

/// A thread that is in no queue and does not run may be set apart.
pub proof fn lemma_set_apart(v: KernelView, t: ThreadId)
    requires
        v.inv(None),
        t < v.threads.len(),
        v.threads[t as int].state == ThreadState::Initialized || v.threads[t as int].state
            == ThreadState::Terminated,
    ensures
        v.inv(Some(t)),
        !v.threads[t as int].timed,
{
    if v.threads[t as int].timed {
        assert(v.timeouts.contains(t));
        let i = choose|i: int| 0 <= i < v.timeouts.len() && v.timeouts[i] == t;
        assert(v.threads[v.timeouts[i] as int].timed);
    }
    assert(v.inv_ready(Some(t))) by {
        assert forall|i: int| 0 <= i < v.ready.len() implies {
            let r = #[trigger] v.ready[i];
            r < v.threads.len() && v.threads[r as int].state == ThreadState::Ready
                && !KernelView::apart(Some(t), r)
        } by {
            assert(v.threads[v.ready[i] as int].state == ThreadState::Ready);
        }
    }
    assert(v.inv_waitqs(Some(t))) by {
        assert forall|q: int, i: int|
            0 <= q < v.waitqs.len() && 0 <= i < v.waitqs[q].len() implies {
            let x = #[trigger] v.waitqs[q][i];
            x < v.threads.len() && v.threads[x as int].state == ThreadState::Waiting
                && v.threads[x as int].waiting_on == q && !KernelView::apart(Some(t), x)
        } by {
            assert(v.threads[v.waitqs[q][i] as int].state == ThreadState::Waiting);
        }
    }
    assert(v.inv_timeouts(Some(t)));
    assert(v.inv_current(Some(t)));
}

/// With no deadline on the next tick, the clock may advance.
pub proof fn lemma_advance(v: KernelView)
    requires
        v.inv(None),
        !v.due(),
    ensures
        (KernelView { now: clock_add(v.now, 1), ..v }).inv(None),
{
    let n = KernelView { now: clock_add(v.now, 1), ..v };
    let keys = v.timeout_keys();
    assert forall|i: int| 0 <= i < v.timeouts.len() implies v.left(v.timeouts[i]) >= 2 && n.left(
        v.timeouts[i],
    ) == v.left(v.timeouts[i]) - 1 by {
        assert(keys[0] >= keys[i]);
        assert(keys[0] == -v.left(v.timeouts[0]));
        assert(keys[i] == -v.left(v.timeouts[i]));
        assert(v.left(v.timeouts[0]) >= 1);
    }
    assert(sorted_desc(n.timeout_keys())) by {
        assert forall|i: int, j: int| 0 <= i < j < n.timeout_keys().len() implies n.timeout_keys()[i]
            >= n.timeout_keys()[j] by {
            assert(keys[i] >= keys[j]);
            assert(n.timeout_keys()[i] == keys[i] + 1);
            assert(n.timeout_keys()[j] == keys[j] + 1);
        }
    }
    assert(n.ready_keys() =~= v.ready_keys());
    assert(n.inv_tables());
    assert(n.inv_current(None));
    assert(n.inv_ready(None));
    assert(n.inv_waitqs(None));
    assert(n.inv_timeouts(None));
}

} // verus!
