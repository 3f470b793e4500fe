use avrtos::config::Config;
use avrtos::duration::Duration;
use avrtos::error::OsErr;
use avrtos::kernel::{InitGuard, Kernel, KernelParams};
use avrtos::thread::{Priority, ThreadState, Wait};
use avrtos::workq::{Work, WorkQueue};

fn boot() -> Kernel {
    let mut guard = InitGuard::new();
    Kernel::init(&mut guard).unwrap()
}

fn work(n: u16) -> Work {
    Work { handler: 0x1000 + n, arg: n }
}

fn queue(kernel: &mut Kernel) -> WorkQueue {
    WorkQueue::new(kernel, vec![0; 128], 3, Priority::Cooperative, b'W', 0x400, 0).unwrap()
}

#[test]
fn a_work_queue_starts_its_worker() {
    let mut kernel = boot();
    let wq = queue(&mut kernel);
    assert_eq!(wq.worker_thread(), 1);
    assert_eq!(wq.handle(), 1);
    assert_eq!(wq.pending(), 0);
    assert_eq!(wq.waiting(), 0);
    let worker = kernel.thread(1).unwrap();
    assert_eq!(worker.state, ThreadState::Ready);
    assert_eq!(worker.priority, 3);
    assert_eq!(worker.symbol, b'W');
    assert_eq!(worker.join_queue, 2);
    assert_eq!(kernel.queue_count(), 3);
}

#[test]
fn a_work_queue_that_cannot_be_made_changes_nothing() {
    let mut guard = InitGuard::new();
    let mut config = Config::new();
    config.max_wait_queues = 2;
    let mut kernel = Kernel::init_with_config(&mut guard, KernelParams::default(), config).unwrap();
    let r = WorkQueue::new(&mut kernel, vec![0; 128], 3, Priority::Cooperative, b'W', 0, 0);
    assert_eq!(r.err(), Some(OsErr::EINVAL));
    assert_eq!(kernel.queue_count(), 1);
    assert_eq!(kernel.thread_count(), 1);
    let mut kernel = boot();
    let r = WorkQueue::new(&mut kernel, vec![0; 10], 3, Priority::Cooperative, b'W', 0, 0);
    assert_eq!(r.err(), Some(OsErr::EINVAL));
    assert_eq!(kernel.queue_count(), 1);
}

#[test]
fn work_runs_in_the_order_it_was_submitted() {
    let mut kernel = boot();
    let mut wq = queue(&mut kernel);
    wq.submit(&mut kernel, work(1));
    wq.submit(&mut kernel, work(2));
    wq.submit(&mut kernel, work(3));
    assert_eq!(wq.pending(), 3);
    kernel.yield_now();
    assert_eq!(kernel.current(), Some(wq.worker_thread()));
    assert_eq!(wq.take(&mut kernel), Ok(Wait::Done(work(1))));
    assert_eq!(wq.take(&mut kernel), Ok(Wait::Done(work(2))));
    assert_eq!(wq.take(&mut kernel), Ok(Wait::Done(work(3))));
    assert_eq!(wq.pending(), 0);
}

#[test]
fn an_idle_worker_is_woken_by_a_submit() {
    let mut kernel = boot();
    let mut wq = queue(&mut kernel);
    let worker = wq.worker_thread();
    kernel.yield_now();
    assert_eq!(kernel.current(), Some(worker));
    assert_eq!(wq.take(&mut kernel), Ok(Wait::Pending));
    assert_eq!(kernel.current(), Some(0));
    assert_eq!(kernel.thread(worker).unwrap().state, ThreadState::Waiting);
    assert_eq!(kernel.wait_queue(wq.handle()), Some(vec![worker]));
    assert!(kernel.timeout_queue().is_empty());
    wq.submit(&mut kernel, work(5));
    assert_eq!(kernel.thread(worker).unwrap().state, ThreadState::Ready);
    assert_eq!(kernel.current(), Some(0));
    kernel.yield_now();
    assert_eq!(kernel.current(), Some(worker));
    assert_eq!(wq.take(&mut kernel), Ok(Wait::Done(work(5))));
    assert_eq!(wq.take(&mut kernel), Ok(Wait::Pending));
}

#[test]
fn take_with_nothing_running_is_busy() {
    let mut kernel = boot();
    let mut wq = queue(&mut kernel);
    kernel.sleep(Duration::forever_wait());
    assert_eq!(wq.take(&mut kernel), Ok(Wait::Pending));
    assert_eq!(kernel.current(), None);
    assert_eq!(wq.take(&mut kernel), Err(OsErr::EBUSY));
}

fn tick(kernel: &mut Kernel) {
    kernel.tick();
    kernel.isr_exit();
}

#[test]
fn delayed_work_is_submitted_when_its_delay_ends() {
    let mut kernel = boot();
    let mut wq = queue(&mut kernel);
    let worker = wq.worker_thread();
    assert_eq!(wq.submit_delayed(&mut kernel, work(3), Duration::from_millis(3)), Ok(()));
    assert_eq!(wq.submit_delayed(&mut kernel, work(1), Duration::from_millis(1)), Ok(()));
    assert_eq!(wq.submit_delayed(&mut kernel, work(30), Duration::from_millis(3)), Ok(()));
    assert_eq!(wq.submit_delayed(&mut kernel, work(2), Duration::from_millis(2)), Ok(()));
    assert_eq!(wq.submit_delayed(&mut kernel, work(0), Duration::no_delay()), Ok(()));
    assert_eq!(wq.pending(), 1);
    assert_eq!(wq.waiting(), 4);
    kernel.yield_now();
    assert_eq!(kernel.current(), Some(worker));
    assert_eq!(wq.take(&mut kernel), Ok(Wait::Done(work(0))));
    // no work is ready: the worker waits until the nearest delay ends
    assert_eq!(wq.take(&mut kernel), Ok(Wait::Pending));
    assert_eq!(kernel.current(), Some(0));
    assert_eq!(kernel.timeout_queue(), vec![worker]);
    assert_eq!(kernel.thread(worker).unwrap().deadline, 1);
    tick(&mut kernel);
    assert_eq!(kernel.current(), Some(worker));
    assert_eq!(wq.take(&mut kernel), Ok(Wait::Done(work(1))));
    assert_eq!(wq.waiting(), 3);
    assert_eq!(wq.take(&mut kernel), Ok(Wait::Pending));
    assert_eq!(kernel.thread(worker).unwrap().deadline, 2);
    tick(&mut kernel);
    assert_eq!(wq.take(&mut kernel), Ok(Wait::Done(work(2))));
    assert_eq!(wq.take(&mut kernel), Ok(Wait::Pending));
    tick(&mut kernel);
    assert_eq!(kernel.ticks_now(), 3);
    assert_eq!(wq.take(&mut kernel), Ok(Wait::Done(work(3))));
    assert_eq!(wq.pending(), 1);
    assert_eq!(wq.take(&mut kernel), Ok(Wait::Done(work(30))));
    assert_eq!(wq.waiting(), 0);
    // nothing is delayed any more: the worker waits without a deadline
    assert_eq!(wq.take(&mut kernel), Ok(Wait::Pending));
    assert!(kernel.timeout_queue().is_empty());
    assert_eq!(kernel.wait_queue(wq.handle()), Some(vec![worker]));
}

#[test]
fn delayed_work_is_not_ready_before_its_time() {
    let mut kernel = boot();
    let mut wq = queue(&mut kernel);
    assert_eq!(wq.submit_delayed(&mut kernel, work(5), Duration::from_millis(5)), Ok(()));
    for now in 1..5 {
        kernel.tick();
        assert_eq!(wq.settle(now), 0);
        assert_eq!(wq.pending(), 0);
        assert_eq!(wq.waiting(), 1);
    }
    kernel.tick();
    assert_eq!(wq.settle(kernel.ticks_now()), 1);
    assert_eq!(wq.pending(), 1);
    assert_eq!(wq.waiting(), 0);
    assert_eq!(wq.settle(kernel.ticks_now()), 0);
}

#[test]
fn a_busy_worker_finds_the_work_that_came_due_meanwhile() {
    let mut kernel = boot();
    let mut wq = queue(&mut kernel);
    assert_eq!(wq.submit_delayed(&mut kernel, work(2), Duration::from_millis(2)), Ok(()));
    assert_eq!(wq.submit_delayed(&mut kernel, work(9), Duration::from_millis(9)), Ok(()));
    wq.submit(&mut kernel, work(0));
    kernel.yield_now();
    assert_eq!(wq.take(&mut kernel), Ok(Wait::Done(work(0))));
    // the worker is cooperative and runs its work for six ticks
    for _ in 0..6 {
        tick(&mut kernel);
        assert_eq!(kernel.current(), Some(wq.worker_thread()));
    }
    assert_eq!(wq.take(&mut kernel), Ok(Wait::Done(work(2))));
    assert_eq!(wq.take(&mut kernel), Ok(Wait::Pending));
    assert_eq!(kernel.thread(wq.worker_thread()).unwrap().deadline, 9);
}

#[test]
fn a_nearer_delay_wakes_the_waiting_worker() {
    let mut kernel = boot();
    let mut wq = queue(&mut kernel);
    let worker = wq.worker_thread();
    assert_eq!(wq.submit_delayed(&mut kernel, work(5), Duration::from_millis(5)), Ok(()));
    assert_eq!(kernel.thread(worker).unwrap().state, ThreadState::Ready);
    kernel.yield_now();
    assert_eq!(wq.take(&mut kernel), Ok(Wait::Pending));
    assert_eq!(kernel.thread(worker).unwrap().deadline, 5);
    tick(&mut kernel);
    tick(&mut kernel);
    assert_eq!(kernel.current(), Some(0));
    // a farther delay leaves the worker waiting
    assert_eq!(wq.submit_delayed(&mut kernel, work(7), Duration::from_millis(7)), Ok(()));
    assert_eq!(kernel.thread(worker).unwrap().state, ThreadState::Waiting);
    // a nearer one wakes it, and it waits anew with the nearer deadline
    assert_eq!(wq.submit_delayed(&mut kernel, work(1), Duration::from_millis(1)), Ok(()));
    assert_eq!(kernel.thread(worker).unwrap().state, ThreadState::Ready);
    kernel.yield_now();
    assert_eq!(kernel.current(), Some(worker));
    assert_eq!(wq.take(&mut kernel), Ok(Wait::Pending));
    assert_eq!(kernel.thread(worker).unwrap().deadline, 3);
    tick(&mut kernel);
    assert_eq!(wq.take(&mut kernel), Ok(Wait::Done(work(1))));
    assert_eq!(wq.take(&mut kernel), Ok(Wait::Pending));
    assert_eq!(kernel.thread(worker).unwrap().deadline, 5);
    tick(&mut kernel);
    tick(&mut kernel);
    assert_eq!(wq.take(&mut kernel), Ok(Wait::Done(work(5))));
    assert_eq!(wq.take(&mut kernel), Ok(Wait::Pending));
    assert_eq!(kernel.thread(worker).unwrap().deadline, 9);
    for _ in 0..4 {
        tick(&mut kernel);
    }
    assert_eq!(wq.take(&mut kernel), Ok(Wait::Done(work(7))));
}

#[test]
fn delayed_work_needs_an_end_and_the_option() {
    let mut kernel = boot();
    let mut wq = queue(&mut kernel);
    assert_eq!(
        wq.submit_delayed(&mut kernel, work(1), Duration::forever_wait()),
        Err(OsErr::EINVAL)
    );
    assert_eq!(wq.waiting(), 0);
    let mut guard = InitGuard::new();
    let mut config = Config::new();
    config.events = false;
    let mut kernel = Kernel::init_with_config(&mut guard, KernelParams::default(), config).unwrap();
    let mut wq = queue(&mut kernel);
    assert_eq!(
        wq.submit_delayed(&mut kernel, work(1), Duration::from_millis(5)),
        Err(OsErr::ENOTSUP)
    );
    assert_eq!(wq.waiting(), 0);
    assert_eq!(wq.pending(), 0);
}
