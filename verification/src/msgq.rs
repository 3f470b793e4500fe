//! The message queue: a ring buffer of items of one size.

use crate::duration::Duration;
use crate::error::OsErr;
use crate::kernel::{copy_bytes, rows, Kernel};
use crate::thread::{Wait, WaitQueueId, WakeCause};
use crate::traits::SyncPrimitive;
use vstd::prelude::*;

verus! {

/// What a message queue holds.
pub struct MsgQView {
    /// The items in the buffer, the oldest in front.
    pub items: Seq<Seq<u8>>,
    /// How many items the buffer holds at most.
    pub capacity: nat,
    /// The size of each item in bytes.
    pub item_size: nat,
}

/// Why an item cannot be put, if it cannot.
pub open spec fn put_error(q: MsgQView, waiter: bool, item: Seq<u8>) -> Option<OsErr> {
    if item.len() != q.item_size {
        Some(OsErr::EINVAL)
    } else if !waiter && q.items.len() >= q.capacity {
        Some(OsErr::ENOMEM)
    } else {
        None
    }
}

impl MsgQView {
    /// The queue after an attempt to put `item`: with a thread waiting the
    /// item goes to that thread and the buffer stays; else the item goes to
    /// the back of the buffer. An item that cannot be put changes nothing.
    pub open spec fn put(self, waiter: bool, item: Seq<u8>) -> MsgQView {
        if put_error(self, waiter, item) is Some || waiter {
            self
        } else {
            MsgQView { items: self.items.push(item), ..self }
        }
    }

    /// The queue after a get: without its oldest item, if it had one.
    pub open spec fn get(self) -> MsgQView {
        if self.items.len() > 0 {
            MsgQView { items: self.items.drop_first(), ..self }
        } else {
            self
        }
    }
}

/// The slot that holds the item `i` places behind the one in slot `head`,
/// in a ring of `capacity` slots.
pub open spec fn slot_index(head: int, i: int, capacity: int) -> int {
    if head + i >= capacity {
        head + i - capacity
    } else {
        head + i
    }
}

/// A message queue: a ring buffer of a fixed number of items of a fixed
/// size, and a queue of the threads that wait for an item.
pub struct MsgQ {
    queue: WaitQueueId,
    slots: Vec<Vec<u8>>,
    head: usize,
    len: usize,
    item_size: usize,
}

impl MsgQ {
    /// What the message queue holds.
    pub closed spec fn view(&self) -> MsgQView {
        MsgQView {
            items: Seq::new(
                self.len as nat,
                |i: int|
                    rows(self.slots@)[slot_index(self.head as int, i, self.slots@.len() as int)],
            ),
            capacity: self.slots@.len(),
            item_size: self.item_size as nat,
        }
    }

    /// The wait queue of the message queue.
    pub closed spec fn queue(&self) -> WaitQueueId {
        self.queue
    }

    /// The ring is in order: the head is a slot and the items fit.
    pub closed spec fn wf(&self) -> bool {
        &&& self.slots@.len() >= 1
        &&& self.head < self.slots@.len()
        &&& self.len <= self.slots@.len()
    }

    /// Whether a thread waits for an item in `kernel`.
    pub open spec fn has_waiter(&self, kernel: &Kernel) -> bool {
        self.queue() < kernel@.waitqs.len() && kernel@.waitqs[self.queue() as int].len() > 0
    }

    /// Whether a queue of `capacity` items of `item_size` bytes can be made
    /// in a kernel in state `k`.
    pub open spec fn can_make(k: crate::model::KernelView, capacity: usize, item_size: usize) -> bool {
        &&& capacity >= 1
        &&& 1 <= item_size <= k.config.msgq_max_item_size
        &&& k.waitqs.len() < k.config.max_wait_queues
    }

    /// Makes an empty message queue for `capacity` items of `item_size`
    /// bytes each. Fails with `EINVAL`, with nothing changed, if either is
    /// zero, if the item size is above the ceiling of the kernel's options,
    /// or if the kernel's table of wait queues is full.
    pub fn new(kernel: &mut Kernel, capacity: usize, item_size: usize) -> (r: Result<MsgQ, OsErr>)
        requires
            old(kernel).wf(),
        ensures
            final(kernel).wf(),
            r is Ok <==> Self::can_make(old(kernel)@, capacity, item_size),
            r matches Ok(q) ==> q.inv() && q@.items.len() == 0 && q@.capacity == capacity
                && q@.item_size == item_size && q.queue() == old(kernel)@.waitqs.len()
                && final(kernel)@ == old(kernel)@.add_queue(),
            r matches Err(e) ==> e == OsErr::EINVAL && final(kernel)@ == old(kernel)@,
    {
        if capacity == 0 || item_size == 0 || item_size > kernel.config().msgq_max_item_size {
            return Err(OsErr::EINVAL);
        }
        let queue = match kernel.add_queue() {
            Ok(queue) => queue,
            Err(e) => {
                return Err(e);
            },
        };
        let mut slots: Vec<Vec<u8>> = Vec::new();
        let mut i: usize = 0;
        while i < capacity
            invariant
                i <= capacity,
                slots@.len() == i,
            decreases capacity - i,
        {
            slots.push(Vec::new());
            i = i + 1;
        }
        Ok(MsgQ { queue, slots, head: 0, len: 0, item_size })
    }

    /// Does away with the message queue: every thread that waits on it is woken with
    /// `ECANCELED`. Returns the number of threads woken.
    pub fn destroy(self, kernel: &mut Kernel) -> (woken: usize)
        requires
            old(kernel).wf(),
        ensures
            final(kernel).wf(),
            final(kernel)@ == old(kernel)@.wake_all(
                self.queue(),
                WakeCause::Canceled,
                Seq::empty(),
                if self.queue() < old(kernel)@.waitqs.len() {
                    old(kernel)@.waitqs[self.queue() as int].len()
                } else {
                    0
                },
            ),
            woken == if self.queue() < old(kernel)@.waitqs.len() {
                old(kernel)@.waitqs[self.queue() as int].len()
            } else {
                0
            },
    {
        kernel.cancel(self.queue)
    }

    /// The handle of the message queue's wait queue in the kernel.
    pub fn handle(&self) -> (w: WaitQueueId)
        ensures
            w == self.queue(),
    {
        self.queue
    }

    /// The number of items in the buffer.
    pub fn len(&self) -> (n: usize)
        ensures
            n == self@.items.len(),
    {
        self.len
    }

    /// Puts `item` in the queue without waiting. If a thread waits for an
    /// item, the oldest waiter is woken with this one. Else the item goes
    /// to the back of the buffer; if the buffer is full the call fails with
    /// `ENOMEM`. An item of the wrong size fails with `EINVAL`. A failed
    /// call hands the item back and changes nothing.
    pub fn put(&mut self, kernel: &mut Kernel, item: Vec<u8>) -> (r: Result<(), (OsErr, Vec<u8>)>)
        requires
            old(self).inv(),
            old(kernel).wf(),
        ensures
            final(self).inv(),
            final(kernel).wf(),
            final(self).queue() == old(self).queue(),
            final(self)@ == old(self)@.put(old(self).has_waiter(old(kernel)), item@),
            match put_error(old(self)@, old(self).has_waiter(old(kernel)), item@) {
                Some(e) => r matches Err(back) && back.0 == e && back.1@ == item@ && final(kernel)@
                    == old(kernel)@,
                None => r is Ok && final(kernel)@ == old(kernel)@.wake_first(
                    old(self).queue(),
                    item@,
                ),
            },
    {
        if item.len() != self.item_size {
            return Err((OsErr::EINVAL, item));
        }
        if kernel.waiters(self.queue) > 0 {
            kernel.wake_first(self.queue, item);
            return Ok(());
        }
        if self.len >= self.slots.len() {
            return Err((OsErr::ENOMEM, item));
        }
        let ghost item_view = item@;
        let capacity: usize = self.slots.len();
        let tail: usize = if self.len >= capacity - self.head {
            self.len - (capacity - self.head)
        } else {
            self.head + self.len
        };
        assert(tail == slot_index(self.head as int, self.len as int, capacity as int));
        self.slots.set(tail, item);
        self.len = self.len + 1;
        proof {
            assert(self@.items =~= old(self)@.items.push(item_view));
        }
        Ok(())
    }
}

impl SyncPrimitive for MsgQ {
    type Swap = Vec<u8>;

    /// The ring is in order.
    open spec fn inv(&self) -> bool {
        self.wf()
    }

    /// Gets the oldest item. With an item in the buffer the call is done
    /// with it. With none, the running thread blocks in the queue's wait
    /// queue for at most `duration`.
    fn acquire(&mut self, kernel: &mut Kernel, duration: Duration) -> (r: Result<
        Wait<Vec<u8>>,
        OsErr,
    >)
        ensures
            final(self).queue() == old(self).queue(),
            final(self)@ == old(self)@.get(),
            old(self)@.items.len() > 0 ==> final(kernel)@ == old(kernel)@ && (r matches Ok(
                Wait::Done(item),
            ) && item@ == old(self)@.items[0]),
            old(self)@.items.len() == 0 ==> final(kernel)@ == old(kernel)@.block(
                old(self).queue(),
                duration,
            ) && match old(kernel)@.block_result(old(self).queue(), duration) {
                Ok(_) => r matches Ok(Wait::Pending),
                Err(e) => r matches Err(f) && f == e,
            },
    {
        if self.len == 0 {
            return match kernel.block_on(self.queue, duration) {
                Ok(()) => Ok(Wait::Pending),
                Err(e) => Err(e),
            };
        }
        let item = copy_bytes(&self.slots[self.head]);
        let capacity: usize = self.slots.len();
        self.head = if self.head + 1 >= capacity {
            0
        } else {
            self.head + 1
        };
        self.len = self.len - 1;
        proof {
            assert(self@.items =~= old(self)@.items.drop_first());
        }
        Ok(Wait::Done(item))
    }

    /// Puts `released` in the queue without waiting, as `put` does; an item
    /// that cannot be put comes back as the error.
    fn release(&mut self, kernel: &mut Kernel, released: Vec<u8>) -> (r: Result<(), Vec<u8>>)
        ensures
            final(self).queue() == old(self).queue(),
            final(self)@ == old(self)@.put(old(self).has_waiter(old(kernel)), released@),
            match put_error(old(self)@, old(self).has_waiter(old(kernel)), released@) {
                Some(e) => r matches Err(back) && back@ == released@ && final(kernel)@
                    == old(kernel)@,
                None => r is Ok && final(kernel)@ == old(kernel)@.wake_first(
                    old(self).queue(),
                    released@,
                ),
            },
    {
        match self.put(kernel, released) {
            Ok(()) => Ok(()),
            Err(back) => Err(back.1),
        }
    }

    /// Collects the outcome of a get that had to wait: the item that was
    /// handed over, or `ETIMEDOUT` or `ECANCELED` if the wait ended without
    /// one. What was handed over in another size is refused with `EINVAL`.
    fn resume(&mut self, kernel: &mut Kernel) -> (r: Result<Vec<u8>, OsErr>)
        ensures
            *final(self) == *old(self),
            final(kernel)@ == old(kernel)@.collected(),
            old(kernel)@.current is None ==> (r matches Err(e) && e == OsErr::ENOENT),
            old(kernel)@.current is Some ==> match old(kernel)@.outcome() {
                Ok(bytes) => if bytes.len() == old(self)@.item_size {
                    r matches Ok(item) && item@ == bytes
                } else {
                    r matches Err(e) && e == OsErr::EINVAL
                },
                Err(f) => r matches Err(e) && e == f,
            },
    {
        match kernel.collect() {
            Ok(bytes) => {
                if bytes.len() == self.item_size {
                    Ok(bytes)
                } else {
                    Err(OsErr::EINVAL)
                }
            },
            Err(e) => Err(e),
        }
    }
}

} // verus!
