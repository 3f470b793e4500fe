use avrtos::duration::Duration;
use avrtos::error::OsErr;
use avrtos::kernel::{InitGuard, Kernel};
use avrtos::msgq::MsgQ;
use avrtos::thread::{Priority, ThreadId, Wait};
use avrtos::traits::SyncPrimitive;

fn boot() -> Kernel {
    let mut guard = InitGuard::new();
    Kernel::init(&mut guard).unwrap()
}

fn started(kernel: &mut Kernel, priority: u8, symbol: u8) -> ThreadId {
    let t = kernel.thread_create(vec![0; 128], priority, Priority::Cooperative, symbol, 0, 0).unwrap();
    kernel.thread_start(t).unwrap();
    t
}

#[test]
fn a_full_queue_refuses_a_fifth_item_until_one_is_taken() {
    let mut kernel = boot();
    let mut queue = MsgQ::new(&mut kernel, 4, 2).unwrap();
    for i in 0..4u8 {
        assert_eq!(queue.release(&mut kernel, vec![i, i + 10]), Ok(()));
    }
    assert_eq!(queue.len(), 4);
    assert_eq!(queue.release(&mut kernel, vec![4, 14]), Err(vec![4, 14]));
    assert_eq!(queue.put(&mut kernel, vec![4, 14]), Err((OsErr::ENOMEM, vec![4, 14])));
    assert_eq!(queue.len(), 4);
    assert_eq!(queue.acquire(&mut kernel, Duration::no_delay()), Ok(Wait::Done(vec![0, 10])));
    assert_eq!(queue.len(), 3);
    assert_eq!(queue.release(&mut kernel, vec![4, 14]), Ok(()));
    assert_eq!(queue.len(), 4);
    for i in 1..5u8 {
        assert_eq!(queue.acquire(&mut kernel, Duration::no_delay()), Ok(Wait::Done(vec![i, i + 10])));
    }
    assert_eq!(queue.len(), 0);
    assert_eq!(queue.acquire(&mut kernel, Duration::no_delay()), Err(OsErr::EBUSY));
}

#[test]
fn items_come_out_in_the_order_they_went_in_around_the_ring() {
    let mut kernel = boot();
    let mut queue = MsgQ::new(&mut kernel, 3, 1).unwrap();
    let mut next_in: u8 = 0;
    let mut next_out: u8 = 0;
    for round in 0..20 {
        let puts = 1 + round % 3;
        for _ in 0..puts {
            if queue.release(&mut kernel, vec![next_in]).is_ok() {
                next_in += 1;
            }
        }
        let gets = 1 + (round + 1) % 2;
        for _ in 0..gets {
            if let Ok(Wait::Done(item)) = queue.acquire(&mut kernel, Duration::no_delay()) {
                assert_eq!(item, vec![next_out]);
                next_out += 1;
            }
        }
        assert_eq!(queue.len(), (next_in - next_out) as usize);
        assert!(queue.len() <= 3);
    }
    assert!(next_out > 10);
}

#[test]
fn an_item_of_the_wrong_size_is_refused() {
    let mut kernel = boot();
    let mut queue = MsgQ::new(&mut kernel, 2, 3).unwrap();
    assert_eq!(queue.put(&mut kernel, vec![1, 2]), Err((OsErr::EINVAL, vec![1, 2])));
    assert_eq!(queue.release(&mut kernel, vec![1, 2, 3, 4]), Err(vec![1, 2, 3, 4]));
    assert_eq!(queue.put(&mut kernel, vec![]), Err((OsErr::EINVAL, vec![])));
    assert_eq!(queue.len(), 0);
    assert_eq!(queue.put(&mut kernel, vec![1, 2, 3]), Ok(()));
    assert_eq!(queue.len(), 1);
}

#[test]
fn a_queue_needs_a_size_within_the_ceiling() {
    let mut kernel = boot();
    assert_eq!(MsgQ::new(&mut kernel, 0, 4).err(), Some(OsErr::EINVAL));
    assert_eq!(MsgQ::new(&mut kernel, 4, 0).err(), Some(OsErr::EINVAL));
    assert_eq!(MsgQ::new(&mut kernel, 4, 65).err(), Some(OsErr::EINVAL));
    assert_eq!(kernel.queue_count(), 1);
    let queue = MsgQ::new(&mut kernel, 1, 64).unwrap();
    assert_eq!(queue.len(), 0);
    assert_eq!(queue.handle(), 1);
}

#[test]
fn an_item_goes_straight_to_the_oldest_waiting_receiver() {
    let mut kernel = boot();
    let mut queue = MsgQ::new(&mut kernel, 2, 1).unwrap();
    let a = started(&mut kernel, 1, b'a');
    let b = started(&mut kernel, 1, b'b');
    assert_eq!(queue.acquire(&mut kernel, Duration::forever_wait()), Ok(Wait::Pending));
    assert_eq!(queue.acquire(&mut kernel, Duration::forever_wait()), Ok(Wait::Pending));
    assert_eq!(kernel.current(), Some(b));
    assert_eq!(queue.release(&mut kernel, vec![7]), Ok(()));
    assert_eq!(queue.len(), 0);
    assert_eq!(kernel.wait_queue(queue.handle()), Some(vec![a]));
    assert_eq!(queue.release(&mut kernel, vec![8]), Ok(()));
    assert_eq!(queue.release(&mut kernel, vec![9]), Ok(()));
    assert_eq!(queue.len(), 1);
    kernel.sleep(Duration::forever_wait());
    assert_eq!(kernel.current(), Some(0));
    assert_eq!(queue.resume(&mut kernel), Ok(vec![7]));
    kernel.sleep(Duration::forever_wait());
    assert_eq!(kernel.current(), Some(a));
    assert_eq!(queue.resume(&mut kernel), Ok(vec![8]));
    assert_eq!(queue.acquire(&mut kernel, Duration::no_delay()), Ok(Wait::Done(vec![9])));
}

#[test]
fn a_receiver_times_out_on_an_empty_queue() {
    let mut kernel = boot();
    let mut queue = MsgQ::new(&mut kernel, 2, 1).unwrap();
    assert_eq!(queue.acquire(&mut kernel, Duration::from_millis(4)), Ok(Wait::Pending));
    for _ in 0..4 {
        kernel.tick();
    }
    kernel.isr_exit();
    assert_eq!(queue.resume(&mut kernel), Err(OsErr::ETIMEDOUT));
    assert_eq!(queue.release(&mut kernel, vec![1]), Ok(()));
    assert_eq!(queue.len(), 1);
}

#[test]
fn resume_refuses_an_item_of_another_size() {
    let mut kernel = boot();
    let mut queue = MsgQ::new(&mut kernel, 2, 2).unwrap();
    assert_eq!(queue.acquire(&mut kernel, Duration::forever_wait()), Ok(Wait::Pending));
    kernel.wake_first(queue.handle(), vec![1]);
    kernel.isr_exit();
    kernel.yield_now();
    assert_eq!(queue.resume(&mut kernel), Err(OsErr::EINVAL));
    kernel.sleep(Duration::forever_wait());
    assert_eq!(queue.resume(&mut kernel), Err(OsErr::ENOENT));
}

#[test]
fn destroying_a_queue_cancels_its_receivers() {
    let mut kernel = boot();
    let mut queue = MsgQ::new(&mut kernel, 2, 1).unwrap();
    let mut probe = MsgQ::new(&mut kernel, 2, 1).unwrap();
    let other = started(&mut kernel, 1, b'o');
    assert_eq!(queue.acquire(&mut kernel, Duration::forever_wait()), Ok(Wait::Pending));
    assert_eq!(kernel.current(), Some(other));
    assert_eq!(queue.destroy(&mut kernel), 1);
    kernel.yield_now();
    assert_eq!(probe.resume(&mut kernel), Err(OsErr::ECANCELED));
}
