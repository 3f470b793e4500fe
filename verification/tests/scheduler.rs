use avrtos::config::Config;
use avrtos::duration::Duration;
use avrtos::error::OsErr;
use avrtos::kernel::{
    rust_sleep, rust_yield, sleep, sleep_broken, yeet, InitGuard, Kernel, KernelParams,
    DEFAULT_PRIORITY, MAIN_SYMBOL,
};
use avrtos::thread::{Priority, ThreadId, ThreadState};

fn boot() -> Kernel {
    let mut guard = InitGuard::new();
    Kernel::init(&mut guard).unwrap()
}

fn started(kernel: &mut Kernel, priority: u8, class: Priority, symbol: u8) -> ThreadId {
    let t = kernel.thread_create(vec![0; 128], priority, class, symbol, 0x100, 0).unwrap();
    kernel.thread_start(t).unwrap();
    t
}

fn state(kernel: &Kernel, t: ThreadId) -> ThreadState {
    kernel.thread(t).unwrap().state
}

#[test]
fn boot_runs_the_main_thread() {
    let kernel = boot();
    assert_eq!(kernel.current(), Some(0));
    assert_eq!(kernel.thread_count(), 1);
    assert_eq!(kernel.ticks_now(), 0);
    let main = kernel.thread(0).unwrap();
    assert_eq!(main.symbol, MAIN_SYMBOL);
    assert_eq!(main.symbol, b'M');
    assert_eq!(main.priority, DEFAULT_PRIORITY);
    assert_eq!(main.class, Priority::Preemptive);
    assert_eq!(main.state, ThreadState::Running);
    assert!(kernel.ready_queue().is_empty());
    assert!(kernel.timeout_queue().is_empty());
    assert_eq!(kernel.queue_count(), 1);
    assert_eq!(kernel.select_next(), None);
    assert!(kernel.interrupts_enabled());
    assert!(!kernel.reschedule_pending());
    assert_eq!(kernel.serial_baud(), Some(115200));
    assert!(kernel.thread(1).is_none());
}

#[test]
fn the_kernel_is_initialized_once() {
    let mut guard = InitGuard::new();
    assert!(!guard.is_used());
    let first = Kernel::init(&mut guard);
    assert!(first.is_some());
    assert!(guard.is_used());
    assert!(Kernel::init(&mut guard).is_none());
    assert!(Kernel::init_with_params(&mut guard, KernelParams { serial_baud: None }).is_none());
}

#[test]
fn parameters_are_kept() {
    let mut guard = InitGuard::new();
    let kernel = Kernel::init_with_params(&mut guard, KernelParams { serial_baud: None }).unwrap();
    assert_eq!(kernel.serial_baud(), None);
    let mut guard = InitGuard::new();
    let kernel =
        Kernel::init_with_params(&mut guard, KernelParams { serial_baud: Some(9600) }).unwrap();
    assert_eq!(kernel.serial_baud(), Some(9600));
    assert_eq!(KernelParams::default().serial_baud, Some(115200));
}

#[test]
fn unusable_options_are_refused_and_leave_the_guard() {
    let mut guard = InitGuard::new();
    let mut config = Config::new();
    assert!(config.is_valid());
    config.tick_period_us = 0;
    assert!(!config.is_valid());
    assert!(Kernel::init_with_config(&mut guard, KernelParams::default(), config).is_none());
    assert!(!guard.is_used());
    config.tick_period_us = 1000;
    config.min_stack_size = 39;
    assert!(Kernel::init_with_config(&mut guard, KernelParams::default(), config).is_none());
    config.min_stack_size = 40;
    let kernel = Kernel::init_with_config(&mut guard, KernelParams::default(), config).unwrap();
    assert_eq!(kernel.config().min_stack_size, 40);
    assert!(guard.is_used());
}

#[test]
fn create_checks_the_stack_and_the_tables() {
    let mut guard = InitGuard::new();
    let mut config = Config::new();
    config.max_threads = 3;
    let mut kernel = Kernel::init_with_config(&mut guard, KernelParams::default(), config).unwrap();
    let small = kernel.thread_create(vec![0; 63], 1, Priority::Cooperative, b'a', 0, 0);
    assert_eq!(small, Err(OsErr::EINVAL));
    let huge = kernel.thread_create(vec![0; 65536], 1, Priority::Cooperative, b'a', 0, 0);
    assert_eq!(huge, Err(OsErr::EINVAL));
    assert_eq!(kernel.thread_count(), 1);
    assert_eq!(kernel.queue_count(), 1);
    let a = kernel.thread_create(vec![0; 64], 1, Priority::Cooperative, b'a', 0, 0);
    assert_eq!(a, Ok(1));
    let b = kernel.thread_create(vec![0; 65535], 1, Priority::Cooperative, b'b', 0, 0);
    assert_eq!(b, Ok(2));
    let c = kernel.thread_create(vec![0; 64], 1, Priority::Cooperative, b'c', 0, 0);
    assert_eq!(c, Err(OsErr::EINVAL));
    assert_eq!(kernel.thread_count(), 3);
    assert_eq!(kernel.queue_count(), 3);
}

#[test]
fn create_fails_when_the_wait_queue_table_is_full() {
    let mut guard = InitGuard::new();
    let mut config = Config::new();
    config.max_wait_queues = 2;
    let mut kernel = Kernel::init_with_config(&mut guard, KernelParams::default(), config).unwrap();
    assert_eq!(kernel.add_queue(), Ok(1));
    assert_eq!(kernel.add_queue(), Err(OsErr::EINVAL));
    let t = kernel.thread_create(vec![0; 64], 1, Priority::Cooperative, b'a', 0, 0);
    assert_eq!(t, Err(OsErr::EINVAL));
    assert_eq!(kernel.thread_count(), 1);
}

#[test]
fn a_created_thread_waits_to_be_started() {
    let mut kernel = boot();
    let t = kernel.thread_create(vec![0; 128], 5, Priority::Cooperative, b'x', 0x200, 7).unwrap();
    assert_eq!(t, 1);
    let tcb = kernel.thread(t).unwrap();
    assert_eq!(tcb.state, ThreadState::Initialized);
    assert_eq!(tcb.priority, 5);
    assert_eq!(tcb.class, Priority::Cooperative);
    assert_eq!(tcb.symbol, b'x');
    assert_eq!(tcb.join_queue, 1);
    assert_eq!(tcb.sp, 128 - 35);
    assert!(!tcb.timed);
    assert!(kernel.ready_queue().is_empty());
    assert_eq!(kernel.thread_start(t), Ok(()));
    assert_eq!(state(&kernel, t), ThreadState::Ready);
    assert_eq!(kernel.ready_queue(), vec![t]);
    assert_eq!(kernel.current(), Some(0));
}

#[test]
fn start_twice_is_refused() {
    let mut kernel = boot();
    let t = kernel.thread_create(vec![0; 128], 1, Priority::Cooperative, b'x', 0, 0).unwrap();
    assert_eq!(kernel.thread_start(t), Ok(()));
    assert_eq!(kernel.thread_start(t), Err(OsErr::EALREADY));
    assert_eq!(kernel.thread_start(0), Err(OsErr::EALREADY));
    assert_eq!(kernel.thread_start(9), Err(OsErr::EINVAL));
    assert_eq!(kernel.ready_queue(), vec![t]);
}

#[test]
fn the_ready_queue_is_in_priority_order_and_fifo_among_equals() {
    let mut kernel = boot();
    let a = started(&mut kernel, 1, Priority::Cooperative, b'a');
    let b = started(&mut kernel, 3, Priority::Cooperative, b'b');
    let c = started(&mut kernel, 2, Priority::Preemptive, b'c');
    let d = started(&mut kernel, 3, Priority::Preemptive, b'd');
    let e = started(&mut kernel, 0, Priority::Cooperative, b'e');
    assert_eq!(kernel.ready_queue(), vec![b, d, c, a, e]);
    assert_eq!(kernel.select_next(), Some(b));
}

#[test]
fn the_highest_priority_ready_thread_is_selected() {
    let mut kernel = boot();
    let low = started(&mut kernel, 1, Priority::Cooperative, b'l');
    let high = started(&mut kernel, 9, Priority::Cooperative, b'h');
    let mid = started(&mut kernel, 4, Priority::Cooperative, b'm');
    kernel.sleep(Duration::forever_wait());
    assert_eq!(kernel.current(), Some(high));
    assert_eq!(state(&kernel, high), ThreadState::Running);
    assert_eq!(state(&kernel, 0), ThreadState::Sleeping);
    kernel.sleep(Duration::forever_wait());
    assert_eq!(kernel.current(), Some(mid));
    kernel.sleep(Duration::forever_wait());
    assert_eq!(kernel.current(), Some(low));
    kernel.sleep(Duration::forever_wait());
    assert_eq!(kernel.current(), None);
    assert!(kernel.ready_queue().is_empty());
}

#[test]
fn yield_rotates_among_equals() {
    let mut kernel = boot();
    let a = started(&mut kernel, 1, Priority::Cooperative, b'a');
    let b = started(&mut kernel, 1, Priority::Cooperative, b'b');
    assert_eq!(kernel.ready_queue(), vec![a, b]);
    kernel.yield_now();
    assert_eq!(kernel.current(), Some(a));
    assert_eq!(kernel.ready_queue(), vec![b, 0]);
    assert_eq!(state(&kernel, 0), ThreadState::Ready);
    yeet(&mut kernel);
    assert_eq!(kernel.current(), Some(b));
    assert_eq!(kernel.ready_queue(), vec![0, a]);
    kernel.yield_now();
    assert_eq!(kernel.current(), Some(0));
    assert_eq!(kernel.ready_queue(), vec![a, b]);
}

#[test]
fn yield_does_not_give_way_to_a_lower_priority() {
    let mut kernel = boot();
    let low = started(&mut kernel, 0, Priority::Cooperative, b'l');
    kernel.yield_now();
    assert_eq!(kernel.current(), Some(0));
    assert_eq!(state(&kernel, 0), ThreadState::Running);
    assert_eq!(kernel.ready_queue(), vec![low]);
}

#[test]
fn yield_gives_way_to_a_higher_priority() {
    let mut kernel = boot();
    let high = started(&mut kernel, 2, Priority::Cooperative, b'h');
    assert_eq!(kernel.current(), Some(0));
    kernel.yield_now();
    assert_eq!(kernel.current(), Some(high));
    assert_eq!(kernel.ready_queue(), vec![0]);
}

#[test]
fn yield_alone_runs_on() {
    let mut kernel = boot();
    kernel.yield_now();
    assert_eq!(kernel.current(), Some(0));
    assert_eq!(state(&kernel, 0), ThreadState::Running);
}

#[test]
fn sleep_without_delay_only_yields() {
    let mut kernel = boot();
    let a = started(&mut kernel, 1, Priority::Cooperative, b'a');
    sleep(&mut kernel, Duration::no_delay());
    assert_eq!(kernel.current(), Some(a));
    assert_eq!(state(&kernel, 0), ThreadState::Ready);
    assert!(kernel.timeout_queue().is_empty());
}

#[test]
fn sleep_forever_sets_no_deadline() {
    let mut kernel = boot();
    kernel.sleep(Duration::forever_wait());
    assert_eq!(kernel.current(), None);
    assert_eq!(state(&kernel, 0), ThreadState::Sleeping);
    assert!(kernel.timeout_queue().is_empty());
    for _ in 0..100 {
        kernel.tick();
        kernel.isr_exit();
    }
    assert_eq!(state(&kernel, 0), ThreadState::Sleeping);
    assert_eq!(kernel.current(), None);
    assert_eq!(kernel.ticks_now(), 100);
}

#[test]
fn sleep_with_nothing_running_changes_nothing() {
    let mut kernel = boot();
    kernel.sleep(Duration::forever_wait());
    assert_eq!(kernel.current(), None);
    kernel.sleep(Duration::from_millis(5));
    assert_eq!(kernel.current(), None);
    assert!(kernel.timeout_queue().is_empty());
}

#[test]
fn block_on_refuses_what_cannot_wait() {
    let mut kernel = boot();
    let w = kernel.add_queue().unwrap();
    assert_eq!(kernel.block_on(w + 1, Duration::forever_wait()), Err(OsErr::EINVAL));
    assert_eq!(kernel.block_on(w, Duration::no_delay()), Err(OsErr::EBUSY));
    assert_eq!(kernel.current(), Some(0));
    assert_eq!(kernel.waiters(w), 0);
    assert_eq!(kernel.block_on(w, Duration::forever_wait()), Ok(()));
    assert_eq!(kernel.current(), None);
    assert_eq!(kernel.wait_queue(w), Some(vec![0]));
    assert_eq!(kernel.thread(0).unwrap().state, ThreadState::Waiting);
    assert_eq!(kernel.thread(0).unwrap().waiting_on, w);
    assert_eq!(kernel.block_on(w, Duration::forever_wait()), Err(OsErr::EBUSY));
    assert_eq!(kernel.waiters(w), 1);
    assert_eq!(kernel.waiters(w + 5), 0);
    assert_eq!(kernel.wait_queue(w + 5), None);
}

#[test]
fn a_thread_is_in_one_queue_at_a_time() {
    let mut kernel = boot();
    let w = kernel.add_queue().unwrap();
    let a = started(&mut kernel, 1, Priority::Cooperative, b'a');
    let b = started(&mut kernel, 1, Priority::Cooperative, b'b');
    let count = |k: &Kernel, t: ThreadId| {
        let mut n = 0;
        n += k.ready_queue().iter().filter(|&&x| x == t).count();
        for q in 0..k.queue_count() {
            n += k.wait_queue(q).unwrap().iter().filter(|&&x| x == t).count();
        }
        n
    };
    for t in [0, a, b] {
        assert!(count(&kernel, t) <= 1);
    }
    kernel.block_on(w, Duration::forever_wait()).unwrap();
    kernel.block_on(w, Duration::from_millis(5)).unwrap();
    assert_eq!(kernel.current(), Some(b));
    assert_eq!(count(&kernel, 0), 1);
    assert_eq!(count(&kernel, a), 1);
    assert_eq!(count(&kernel, b), 0);
    assert_eq!(kernel.wait_queue(w), Some(vec![0, a]));
    assert_eq!(kernel.timeout_queue(), vec![a]);
    assert!(!kernel.ready_queue().contains(&a));
    kernel.wake_first(w, vec![]);
    kernel.wake_first(w, vec![]);
    assert_eq!(count(&kernel, 0), 1);
    assert_eq!(count(&kernel, a), 1);
    assert_eq!(kernel.ready_queue(), vec![0, a]);
    assert!(kernel.timeout_queue().is_empty());
    assert_eq!(kernel.waiters(w), 0);
}

#[test]
fn waking_does_not_suspend_the_caller() {
    let mut kernel = boot();
    let w = kernel.add_queue().unwrap();
    let high = started(&mut kernel, 9, Priority::Cooperative, b'h');
    kernel.yield_now();
    assert_eq!(kernel.current(), Some(high));
    kernel.block_on(w, Duration::forever_wait()).unwrap();
    assert_eq!(kernel.current(), Some(0));
    assert_eq!(kernel.wake_first(w, vec![1, 2]), Some(high));
    assert_eq!(kernel.current(), Some(0));
    assert_eq!(kernel.ready_queue(), vec![high]);
    assert_eq!(kernel.wake_first(w, vec![]), None);
    assert_eq!(kernel.wake_first(77, vec![]), None);
    kernel.yield_now();
    assert_eq!(kernel.current(), Some(high));
    assert_eq!(kernel.collect(), Ok(vec![1, 2]));
    assert_eq!(kernel.collect(), Ok(vec![]));
}

#[test]
fn wake_highest_prefers_priority_over_age() {
    let mut kernel = boot();
    let w = kernel.add_queue().unwrap();
    let a = started(&mut kernel, 2, Priority::Cooperative, b'a');
    let b = started(&mut kernel, 5, Priority::Cooperative, b'b');
    let c = started(&mut kernel, 5, Priority::Cooperative, b'c');
    let d = started(&mut kernel, 3, Priority::Cooperative, b'd');
    kernel.sleep(Duration::forever_wait());
    // b, c, d, a run in this order; let them block so that the queue is a, d, c, b
    assert_eq!(kernel.current(), Some(b));
    kernel.yield_now();
    assert_eq!(kernel.current(), Some(c));
    kernel.sleep(Duration::forever_wait());
    assert_eq!(kernel.current(), Some(b));
    kernel.sleep(Duration::forever_wait());
    assert_eq!(kernel.current(), Some(d));
    kernel.sleep(Duration::forever_wait());
    assert_eq!(kernel.current(), Some(a));
    kernel.block_on(w, Duration::forever_wait()).unwrap();
    assert_eq!(kernel.current(), None);
    assert_eq!(kernel.wait_queue(w), Some(vec![a]));
    assert_eq!(kernel.wake_highest(w, vec![]), Some(a));
    assert_eq!(kernel.wake_highest(w, vec![]), None);
    assert_eq!(kernel.wake_highest(99, vec![]), None);
}

#[test]
fn wake_all_wakes_oldest_first_and_counts() {
    let mut kernel = boot();
    let w = kernel.add_queue().unwrap();
    let a = started(&mut kernel, 1, Priority::Cooperative, b'a');
    let b = started(&mut kernel, 1, Priority::Cooperative, b'b');
    kernel.block_on(w, Duration::forever_wait()).unwrap();
    kernel.block_on(w, Duration::forever_wait()).unwrap();
    assert_eq!(kernel.current(), Some(b));
    assert_eq!(kernel.wait_queue(w), Some(vec![0, a]));
    assert_eq!(kernel.cancel(w), 2);
    assert_eq!(kernel.waiters(w), 0);
    assert_eq!(kernel.ready_queue(), vec![0, a]);
    assert_eq!(kernel.cancel(w), 0);
    assert_eq!(kernel.cancel(1000), 0);
    kernel.yield_now();
    assert_eq!(kernel.current(), Some(0));
    assert_eq!(kernel.collect(), Err(OsErr::ECANCELED));
    assert_eq!(kernel.collect_verdict(), Ok(()));
}

#[test]
fn collect_needs_a_running_thread() {
    let mut kernel = boot();
    assert_eq!(kernel.collect(), Ok(vec![]));
    kernel.sleep(Duration::forever_wait());
    assert_eq!(kernel.collect(), Err(OsErr::ENOENT));
    assert_eq!(kernel.collect_verdict(), Err(OsErr::ENOENT));
}

#[test]
fn exit_terminates_and_runs_the_next() {
    let mut kernel = boot();
    let a = started(&mut kernel, 1, Priority::Cooperative, b'a');
    kernel.thread_exit();
    assert_eq!(state(&kernel, 0), ThreadState::Terminated);
    assert_eq!(kernel.current(), Some(a));
    kernel.thread_exit();
    assert_eq!(state(&kernel, a), ThreadState::Terminated);
    assert_eq!(kernel.current(), None);
    kernel.thread_exit();
    assert_eq!(kernel.current(), None);
    assert_eq!(kernel.thread_start(a), Err(OsErr::EALREADY));
}

#[test]
fn the_sleeps_of_the_bare_interface() {
    let mut kernel = boot();
    let a = started(&mut kernel, 1, Priority::Cooperative, b'a');
    sleep_broken(&mut kernel);
    assert_eq!(kernel.current(), Some(a));
    assert!(kernel.timeout_queue().is_empty());
    rust_yield(&mut kernel);
    assert_eq!(kernel.current(), Some(0));
    assert!(kernel.interrupts_enabled());
    rust_sleep(&mut kernel);
    assert_eq!(kernel.current(), Some(a));
    assert_eq!(kernel.thread(0).unwrap().deadline, 1000);
    assert_eq!(state(&kernel, 0), ThreadState::Sleeping);
    kernel.sleep_ticks(3);
    assert_eq!(kernel.timeout_queue(), vec![a, 0]);
    assert_eq!(kernel.block_ticks(0, Some(0)), Err(OsErr::EBUSY));
}
