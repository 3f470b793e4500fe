use avrtos::config::Config;
use avrtos::duration::Duration;
use avrtos::error::OsErr;
use avrtos::kernel::{clock_after, ticks_until, InitGuard, Kernel, KernelParams};
use avrtos::thread::{Priority, ThreadId, ThreadState};

fn boot() -> Kernel {
    let mut guard = InitGuard::new();
    Kernel::init(&mut guard).unwrap()
}

fn boot_with(config: Config) -> Kernel {
    let mut guard = InitGuard::new();
    Kernel::init_with_config(&mut guard, KernelParams::default(), config).unwrap()
}

fn started(kernel: &mut Kernel, priority: u8, class: Priority, symbol: u8) -> ThreadId {
    let t = kernel.thread_create(vec![0; 128], priority, class, symbol, 0x100, 0).unwrap();
    kernel.thread_start(t).unwrap();
    t
}

fn state(kernel: &Kernel, t: ThreadId) -> ThreadState {
    kernel.thread(t).unwrap().state
}

#[test]
fn a_sleeper_wakes_on_its_tick_and_not_before() {
    let mut kernel = boot();
    kernel.sleep(Duration::from_millis(5));
    assert_eq!(kernel.current(), None);
    assert_eq!(state(&kernel, 0), ThreadState::Sleeping);
    assert_eq!(kernel.thread(0).unwrap().deadline, 5);
    assert!(kernel.thread(0).unwrap().timed);
    assert_eq!(kernel.timeout_queue(), vec![0]);
    for tick in 1..5 {
        assert!(!kernel.tick());
        assert_eq!(kernel.ticks_now(), tick);
        assert_eq!(state(&kernel, 0), ThreadState::Sleeping);
    }
    assert!(kernel.tick());
    assert_eq!(kernel.ticks_now(), 5);
    assert_eq!(state(&kernel, 0), ThreadState::Ready);
    assert!(kernel.thread(0).unwrap().timer_expired);
    assert!(!kernel.thread(0).unwrap().timed);
    assert!(kernel.timeout_queue().is_empty());
    assert!(kernel.reschedule_pending());
    assert_eq!(kernel.current(), None);
    kernel.isr_exit();
    assert!(!kernel.reschedule_pending());
    assert_eq!(kernel.current(), Some(0));
    assert_eq!(kernel.collect(), Err(OsErr::ETIMEDOUT));
}

#[test]
fn one_second_is_a_thousand_ticks() {
    let mut kernel = boot();
    kernel.sleep(Duration::from_secs(1));
    for _ in 0..999 {
        kernel.tick();
    }
    assert_eq!(state(&kernel, 0), ThreadState::Sleeping);
    kernel.tick();
    assert_eq!(state(&kernel, 0), ThreadState::Ready);
    assert_eq!(kernel.ticks_now(), 1000);
}

#[test]
fn the_tick_period_scales_the_deadline() {
    let mut config = Config::new();
    config.tick_period_us = 10_000;
    let mut kernel = boot_with(config);
    kernel.sleep(Duration::from_millis(25));
    assert_eq!(kernel.thread(0).unwrap().deadline, 2);
    kernel.tick();
    assert_eq!(state(&kernel, 0), ThreadState::Sleeping);
    kernel.tick();
    assert_eq!(state(&kernel, 0), ThreadState::Ready);
}

#[test]
fn less_than_a_tick_is_no_wait() {
    let mut config = Config::new();
    config.tick_period_us = 10_000;
    let mut kernel = boot_with(config);
    let w = kernel.add_queue().unwrap();
    assert_eq!(kernel.block_on(w, Duration::from_millis(9)), Err(OsErr::EBUSY));
    assert_eq!(kernel.current(), Some(0));
    kernel.sleep(Duration::from_millis(9));
    assert_eq!(kernel.current(), Some(0));
    assert!(kernel.timeout_queue().is_empty());
    assert_eq!(kernel.block_on(w, Duration::from_millis(10)), Ok(()));
    assert_eq!(kernel.timeout_queue(), vec![0]);
}

#[test]
fn the_timeout_queue_is_in_deadline_order() {
    let mut kernel = boot();
    let a = started(&mut kernel, 1, Priority::Cooperative, b'a');
    let b = started(&mut kernel, 1, Priority::Cooperative, b'b');
    let c = started(&mut kernel, 1, Priority::Cooperative, b'c');
    kernel.sleep(Duration::from_millis(30));
    assert_eq!(kernel.current(), Some(a));
    kernel.sleep(Duration::from_millis(10));
    assert_eq!(kernel.current(), Some(b));
    kernel.sleep(Duration::from_millis(20));
    assert_eq!(kernel.current(), Some(c));
    kernel.sleep(Duration::from_millis(10));
    assert_eq!(kernel.current(), None);
    assert_eq!(kernel.timeout_queue(), vec![a, c, b, 0]);
    for _ in 0..10 {
        kernel.tick();
    }
    assert_eq!(kernel.timeout_queue(), vec![b, 0]);
    assert_eq!(kernel.ready_queue(), vec![a, c]);
    for _ in 0..10 {
        kernel.tick();
    }
    assert_eq!(kernel.timeout_queue(), vec![0]);
    assert_eq!(kernel.ready_queue(), vec![a, c, b]);
    for _ in 0..10 {
        kernel.tick();
    }
    assert!(kernel.timeout_queue().is_empty());
    assert_eq!(kernel.ready_queue(), vec![a, c, b, 0]);
}

#[test]
fn deadlines_are_counted_from_the_present_tick() {
    let mut kernel = boot();
    let a = started(&mut kernel, 1, Priority::Cooperative, b'a');
    kernel.sleep(Duration::from_millis(10));
    for _ in 0..7 {
        kernel.tick();
    }
    assert_eq!(kernel.current(), Some(a));
    kernel.sleep(Duration::from_millis(2));
    assert_eq!(kernel.thread(a).unwrap().deadline, 9);
    assert_eq!(kernel.timeout_queue(), vec![a, 0]);
    kernel.tick();
    kernel.tick();
    assert_eq!(kernel.ready_queue(), vec![a]);
    kernel.tick();
    assert_eq!(kernel.ready_queue(), vec![a, 0]);
}

#[test]
fn a_deadline_takes_the_thread_from_its_wait_queue() {
    let mut kernel = boot();
    let w = kernel.add_queue().unwrap();
    kernel.block_on(w, Duration::from_millis(3)).unwrap();
    assert_eq!(state(&kernel, 0), ThreadState::Waiting);
    assert_eq!(kernel.wait_queue(w), Some(vec![0]));
    assert_eq!(kernel.timeout_queue(), vec![0]);
    kernel.tick();
    kernel.tick();
    assert_eq!(kernel.waiters(w), 1);
    kernel.tick();
    assert_eq!(kernel.waiters(w), 0);
    assert!(kernel.timeout_queue().is_empty());
    assert_eq!(kernel.ready_queue(), vec![0]);
    kernel.isr_exit();
    assert_eq!(kernel.collect(), Err(OsErr::ETIMEDOUT));
}

#[test]
fn an_event_takes_the_thread_from_the_timeout_queue() {
    let mut kernel = boot();
    let w = kernel.add_queue().unwrap();
    kernel.block_on(w, Duration::from_millis(3)).unwrap();
    kernel.tick();
    assert_eq!(kernel.wake_first(w, vec![9]), Some(0));
    assert!(kernel.timeout_queue().is_empty());
    assert!(!kernel.thread(0).unwrap().timed);
    assert!(!kernel.thread(0).unwrap().timer_expired);
    for _ in 0..5 {
        kernel.tick();
    }
    kernel.isr_exit();
    assert_eq!(kernel.current(), Some(0));
    assert_eq!(kernel.collect(), Ok(vec![9]));
}

#[test]
fn a_tick_is_not_taken_with_interrupts_disabled() {
    let mut kernel = boot();
    let key = kernel.irq_lock();
    assert_eq!(key, 1);
    assert!(!kernel.interrupts_enabled());
    assert!(!kernel.tick());
    assert_eq!(kernel.ticks_now(), 0);
    assert_eq!(kernel.irq_lock(), 0);
    kernel.irq_unlock(0);
    assert!(!kernel.interrupts_enabled());
    kernel.irq_unlock(key);
    assert!(kernel.interrupts_enabled());
    kernel.tick();
    assert_eq!(kernel.ticks_now(), 1);
}

#[test]
fn a_cooperative_thread_is_not_preempted() {
    let mut kernel = boot();
    let coop = started(&mut kernel, 1, Priority::Cooperative, b'c');
    let high = started(&mut kernel, 9, Priority::Cooperative, b'h');
    kernel.sleep(Duration::forever_wait());
    assert_eq!(kernel.current(), Some(high));
    kernel.sleep(Duration::from_millis(2));
    assert_eq!(kernel.current(), Some(coop));
    assert!(!kernel.tick());
    assert!(!kernel.tick());
    assert_eq!(state(&kernel, high), ThreadState::Ready);
    assert!(!kernel.reschedule_pending());
    kernel.isr_exit();
    assert_eq!(kernel.current(), Some(coop));
    kernel.yield_now();
    assert_eq!(kernel.current(), Some(high));
}

#[test]
fn a_preemptive_thread_gives_way_to_a_higher_priority_at_the_tick() {
    let mut kernel = boot();
    let high = started(&mut kernel, 9, Priority::Cooperative, b'h');
    kernel.yield_now();
    assert_eq!(kernel.current(), Some(high));
    kernel.sleep(Duration::from_millis(2));
    assert_eq!(kernel.current(), Some(0));
    assert!(!kernel.tick());
    kernel.isr_exit();
    assert_eq!(kernel.current(), Some(0));
    assert!(kernel.tick());
    assert_eq!(kernel.current(), Some(0));
    kernel.isr_exit();
    assert_eq!(kernel.current(), Some(high));
    assert_eq!(kernel.ready_queue(), vec![0]);
    assert_eq!(kernel.collect(), Err(OsErr::ETIMEDOUT));
}

#[test]
fn a_preemptive_thread_keeps_the_processor_from_its_equals_without_a_time_slice() {
    let mut kernel = boot();
    let peer = started(&mut kernel, 1, Priority::Preemptive, b'p');
    for _ in 0..20 {
        assert!(!kernel.tick());
        kernel.isr_exit();
        assert_eq!(kernel.current(), Some(0));
    }
    assert_eq!(kernel.ready_queue(), vec![peer]);
}

#[test]
fn a_time_slice_rotates_preemptive_equals() {
    let mut config = Config::new();
    config.time_slice = 4;
    let mut kernel = boot_with(config);
    let peer = started(&mut kernel, 1, Priority::Preemptive, b'p');
    let low = started(&mut kernel, 0, Priority::Preemptive, b'l');
    let mut ran = Vec::new();
    for _ in 0..16 {
        ran.push(kernel.current().unwrap());
        kernel.tick();
        kernel.isr_exit();
    }
    assert_eq!(ran, vec![0, 0, 0, 0, peer, peer, peer, peer, 0, 0, 0, 0, peer, peer, peer, peer]);
    assert_eq!(state(&kernel, low), ThreadState::Ready);
}

#[test]
fn an_idle_processor_takes_the_woken_thread() {
    let mut kernel = boot();
    kernel.sleep(Duration::from_millis(1));
    assert_eq!(kernel.current(), None);
    assert!(kernel.tick());
    kernel.isr_exit();
    assert_eq!(kernel.current(), Some(0));
    assert_eq!(state(&kernel, 0), ThreadState::Running);
}

#[test]
fn isr_exit_without_a_flag_changes_nothing() {
    let mut kernel = boot();
    let a = started(&mut kernel, 9, Priority::Cooperative, b'a');
    kernel.isr_exit();
    assert_eq!(kernel.current(), Some(0));
    assert_eq!(kernel.ready_queue(), vec![a]);
    assert!(kernel.tick());
    kernel.isr_exit();
    assert_eq!(kernel.current(), Some(a));
}

#[test]
fn the_clock_wraps_and_deadlines_with_it() {
    assert_eq!(clock_after(0, 5), 5);
    assert_eq!(clock_after(u64::MAX, 1), 0);
    assert_eq!(clock_after(u64::MAX - 1, 4), 2);
    assert_eq!(clock_after(7, u64::MAX), 6);
    assert_eq!(clock_after(u64::MAX, 0), u64::MAX);
    assert_eq!(ticks_until(5, 0), 5);
    assert_eq!(ticks_until(5, 5), 0);
    assert_eq!(ticks_until(0, u64::MAX), 1);
    assert_eq!(ticks_until(2, u64::MAX - 1), 4);
    assert_eq!(ticks_until(6, 7), u64::MAX);
    for (now, ticks) in [(0u64, 1u64), (u64::MAX, 1), (u64::MAX - 3, 10), (12, u64::MAX)] {
        assert_eq!(ticks_until(clock_after(now, ticks), now), ticks);
    }
}
