//! Thread control blocks: what the kernel records of each thread.

use crate::duration::Duration;
use crate::error::OsErr;
use crate::kernel::{Kernel, COOPERATIVE_PRIORITY, DEFAULT_PRIORITY};
use crate::stack::{initial_stack, usage, canaries_intact, FRAME_SIZE};
use vstd::prelude::*;

verus! {

/// A thread's handle: its index in the kernel's table of control blocks.
/// Control blocks never move, so a handle stays valid for the kernel's life.
pub type ThreadId = usize;

/// A wait queue's handle: its index in the kernel's table of wait queues.
pub type WaitQueueId = usize;

/// The scheduling class of a thread.
#[derive(Clone, Copy, Debug, PartialEq, Eq, Structural)]
pub enum Priority {
    /// The tick interrupt may take the processor from the thread.
    Preemptive,
    /// The thread runs until it yields or blocks.
    Cooperative,
}

/// Where a thread stands in its life.
#[derive(Clone, Copy, Debug, PartialEq, Eq, Structural)]
pub enum ThreadState {
    /// Created, not yet started.
    Initialized,
    /// Runnable, in the ready queue.
    Ready,
    /// On the processor.
    Running,
    /// Blocked in a wait queue, with or without a deadline.
    Waiting,
    /// Asleep: blocked in no wait queue.
    Sleeping,
    /// Finished; in no queue.
    Terminated,
}

/// Why a thread that was blocked became ready again.
#[derive(Clone, Copy, Debug, PartialEq, Eq, Structural)]
pub enum WakeCause {
    /// What it waited for happened.
    Event,
    /// Its deadline passed.
    Expired,
    /// The object it waited on went away.
    Canceled,
}

/// A thread control block. The links that queue the thread are kept beside
/// it, in the kernel's tables of links, under the same handle.
#[derive(Clone, Copy, Debug)]
pub struct Tcb {
    /// The thread's one-byte name.
    pub symbol: u8,
    /// The priority level: a larger number is served first.
    pub priority: u8,
    /// The scheduling class.
    pub class: Priority,
    /// The lifecycle state.
    pub state: ThreadState,
    /// The wait queue the thread is in; it counts while the state is `Waiting`.
    pub waiting_on: WaitQueueId,
    /// Whether the thread is in the timeout queue.
    pub timed: bool,
    /// The tick at which the thread's wait ends; it counts while `timed`.
    pub deadline: u64,
    /// Set when the last wait ended because its deadline passed.
    pub timer_expired: bool,
    /// Set when the last wait ended because the object went away.
    pub canceled: bool,
    /// The wait queue of the threads that wait for this one to terminate.
    pub join_queue: WaitQueueId,
    /// The saved stack pointer: an offset into the thread's stack region.
    pub sp: u16,
}

/// A thread's stack figures.
#[derive(Clone, Copy, Debug)]
pub struct Stats {
    /// The size of the stack region in bytes.
    pub stack_size: u16,
    /// The largest number of bytes of it that were ever in use.
    pub stack_usage: u16,
}

/// What a call that may block returned.
#[derive(Debug, PartialEq, Eq)]
pub enum Wait<T> {
    /// The call is over, with this result.
    Done(T),
    /// The caller was blocked and another thread runs; the result is
    /// collected when the caller runs again.
    Pending,
}

/// What the processor does after a context switch.
#[derive(Clone, Copy, Debug, PartialEq, Eq)]
pub enum Switch {
    /// The thread runs on from its saved stack pointer.
    Resume { thread: ThreadId, sp: u16 },
    /// No thread is ready: the processor idles until an interrupt.
    Idle,
    /// The stack of the thread switched away from has overflown: a fatal fault.
    Fault { thread: ThreadId },
}

/// The handle of a spawned thread, by which it is joined.
pub struct JoinHandle {
    thread: ThreadId,
}

impl JoinHandle {
    /// The thread the handle stands for.
    pub closed spec fn thread(&self) -> ThreadId {
        self.thread
    }

    /// Blocks the running thread until the thread has terminated, for at
    /// most `duration`. Returns `Done` at once if it has terminated. Fails
    /// with `EINVAL` if `kernel` has no such thread, and as busy if the wait
    /// cannot begin. The outcome of a wait that blocked is had from
    /// `finish`.
    pub fn join(self, kernel: &mut Kernel, duration: Duration) -> (r: Result<Wait<()>, OsErr>)
        requires
            old(kernel).wf(),
        ensures
            final(kernel).wf(),
            self.thread() >= old(kernel)@.threads.len() ==> r == Err::<Wait<()>, OsErr>(
                OsErr::EINVAL,
            ),
            self.thread() < old(kernel)@.threads.len() ==> {
                let v = old(kernel)@;
                if v.threads[self.thread() as int].state == ThreadState::Terminated {
                    r == Ok::<Wait<()>, OsErr>(Wait::Done(()))
                } else if v.current is None || v.no_wait(duration) {
                    r == Err::<Wait<()>, OsErr>(OsErr::EBUSY)
                } else {
                    r == Ok::<Wait<()>, OsErr>(Wait::Pending)
                }
            },
            final(kernel)@ == if self.thread() < old(kernel)@.threads.len()
                && old(kernel)@.threads[self.thread() as int].state != ThreadState::Terminated {
                old(kernel)@.block(old(kernel)@.threads[self.thread() as int].join_queue, duration)
            } else {
                old(kernel)@
            },
    {
        kernel.join(self.thread, duration)
    }

    /// Collects the outcome of a join that blocked, once the joining thread
    /// runs again: success if the thread terminated, `ETIMEDOUT` if the
    /// deadline passed first.
    pub fn finish(kernel: &mut Kernel) -> (r: Result<(), OsErr>)
        requires
            old(kernel).wf(),
        ensures
            final(kernel).wf(),
            final(kernel)@ == old(kernel)@.collected(),
            r == old(kernel)@.verdict(),
    {
        kernel.collect_verdict()
    }

    /// The thread's handle in the kernel's table, which never changes.
    pub fn get_thread_ptr(&mut self) -> (t: ThreadId)
        ensures
            t == old(self).thread(),
            final(self).thread() == old(self).thread(),
    {
        self.thread
    }

    /// Tests whether the canary of the thread's stack is whole; `None` if
    /// `kernel` has no such thread.
    pub fn canaries(&self, kernel: &Kernel) -> (r: Option<bool>)
        requires
            kernel.wf(),
        ensures
            r == if self.thread() < kernel@.threads.len() {
                Some(canaries_intact(kernel@.stacks[self.thread() as int]))
            } else {
                None
            },
    {
        kernel.check_stack_canaries(self.thread)
    }

    /// The thread's stack figures; `None` if `kernel` has no such thread or
    /// keeps no statistics.
    pub fn stats(&self, kernel: &Kernel) -> (r: Option<Stats>)
        requires
            kernel.wf(),
        ensures
            r is Some <==> self.thread() < kernel@.threads.len() && kernel@.config.statistics,
            r matches Some(s) ==> s.stack_size == kernel@.stacks[self.thread() as int].len()
                && s.stack_usage == usage(kernel@.stacks[self.thread() as int]),
    {
        kernel.stats(self.thread)
    }
}

/// A stack region of `size` bytes, all zero.
pub fn stack_region(size: u16) -> (region: Vec<u8>)
    ensures
        region@.len() == size,
        forall|i: int| 0 <= i < size ==> region@[i] == 0,
{
    let mut region: Vec<u8> = Vec::new();
    let mut i: u16 = 0;
    while i < size
        invariant
            i <= size,
            region@.len() == i,
            forall|k: int| 0 <= k < i ==> region@[k] == 0,
        decreases size - i,
    {
        region.push(0);
        i = i + 1;
    }
    region
}

/// The priority a thread of class `class` is spawned with.
pub open spec fn spawn_priority(class: Priority) -> u8 {
    if class == Priority::Cooperative {
        COOPERATIVE_PRIORITY
    } else {
        DEFAULT_PRIORITY
    }
}

/// Creates a thread of class `prio`, with the priority that goes with the
/// class, on a stack of its own of `stack_size` bytes, to start at `entry`
/// with argument `arg`, and starts it. Returns the handle to join it by;
/// `None`, with nothing changed, if the thread cannot be created.
pub fn spawn(kernel: &mut Kernel, stack_size: u16, prio: Priority, symbol: u8, entry: u16, arg: u16)
    -> (r: Option<JoinHandle>)
    requires
        old(kernel).wf(),
    ensures
        final(kernel).wf(),
        r is Some <==> old(kernel)@.can_create(stack_size as nat),
        r matches Some(h) ==> h.thread() == old(kernel)@.threads.len() && final(kernel)@
            == old(kernel)@.create(
            initial_stack(stack_size as nat, entry, arg),
            spawn_priority(prio),
            prio,
            symbol,
            (stack_size - FRAME_SIZE) as u16,
        ).enqueue_ready(h.thread()),
        r is None ==> final(kernel)@ == old(kernel)@,
{
    let stack = stack_region(stack_size);
    let priority: u8 = if prio == Priority::Cooperative {
        COOPERATIVE_PRIORITY
    } else {
        DEFAULT_PRIORITY
    };
    let thread = match kernel.thread_create(stack, priority, prio, symbol, entry, arg) {
        Ok(t) => t,
        Err(_) => {
            return None;
        },
    };
    match kernel.thread_start(thread) {
        Ok(()) => Some(JoinHandle { thread }),
        Err(_) => None,
    }
}

} // verus!
