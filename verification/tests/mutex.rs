use avrtos::config::Config;
use avrtos::duration::Duration;
use avrtos::error::OsErr;
use avrtos::kernel::{InitGuard, Kernel, KernelParams};
use avrtos::mutex::Mutex;
use avrtos::thread::{Priority, ThreadId, Wait};
use avrtos::traits::SyncPrimitive;

fn boot() -> Kernel {
    let mut guard = InitGuard::new();
    Kernel::init(&mut guard).unwrap()
}

fn started(kernel: &mut Kernel, priority: u8, symbol: u8) -> ThreadId {
    let t = kernel.thread_create(vec![0; 128], priority, Priority::Cooperative, symbol, 0, 0).unwrap();
    kernel.thread_start(t).unwrap();
    t
}

#[test]
fn a_new_mutex_is_free() {
    let mut kernel = boot();
    let mutex = Mutex::new(&mut kernel).unwrap();
    assert_eq!(mutex.holder(), None);
    assert_eq!(mutex.held(), 0);
    assert_eq!(mutex.handle(), 1);
}

#[test]
fn n_acquires_need_n_releases() {
    let mut kernel = boot();
    let mut mutex = Mutex::new(&mut kernel).unwrap();
    let other = started(&mut kernel, 1, b'o');
    for depth in 1..=3 {
        assert_eq!(mutex.acquire(&mut kernel, Duration::no_delay()), Ok(Wait::Done(())));
        assert_eq!(mutex.holder(), Some(0));
        assert_eq!(mutex.held(), depth);
    }
    for left in [2, 1] {
        assert_eq!(mutex.release(&mut kernel, ()), Ok(()));
        assert_eq!(mutex.held(), left);
        assert_eq!(mutex.holder(), Some(0));
        kernel.yield_now();
        assert_eq!(kernel.current(), Some(other));
        assert_eq!(mutex.acquire(&mut kernel, Duration::no_delay()), Err(OsErr::EBUSY));
        assert_eq!(mutex.holder(), Some(0));
        kernel.yield_now();
        assert_eq!(kernel.current(), Some(0));
    }
    assert_eq!(mutex.release(&mut kernel, ()), Ok(()));
    assert_eq!(mutex.holder(), None);
    assert_eq!(mutex.held(), 0);
    kernel.yield_now();
    assert_eq!(kernel.current(), Some(other));
    assert_eq!(mutex.acquire(&mut kernel, Duration::no_delay()), Ok(Wait::Done(())));
    assert_eq!(mutex.holder(), Some(other));
    assert_eq!(mutex.held(), 1);
}

#[test]
fn only_the_owner_releases() {
    let mut kernel = boot();
    let mut mutex = Mutex::new(&mut kernel).unwrap();
    let other = started(&mut kernel, 1, b'o');
    assert_eq!(mutex.release(&mut kernel, ()), Err(()));
    assert_eq!(mutex.acquire(&mut kernel, Duration::no_delay()), Ok(Wait::Done(())));
    kernel.yield_now();
    assert_eq!(kernel.current(), Some(other));
    assert_eq!(mutex.release(&mut kernel, ()), Err(()));
    assert_eq!(mutex.holder(), Some(0));
    assert_eq!(mutex.held(), 1);
    kernel.sleep(Duration::forever_wait());
    kernel.sleep(Duration::forever_wait());
    assert_eq!(kernel.current(), None);
    assert_eq!(mutex.release(&mut kernel, ()), Err(()));
    assert_eq!(mutex.acquire(&mut kernel, Duration::forever_wait()), Err(OsErr::EBUSY));
}

#[test]
fn the_recursion_limit_holds() {
    let mut guard = InitGuard::new();
    let mut config = Config::new();
    config.mutex_max_depth = 2;
    let mut kernel = Kernel::init_with_config(&mut guard, KernelParams::default(), config).unwrap();
    let mut mutex = Mutex::new(&mut kernel).unwrap();
    assert_eq!(mutex.acquire(&mut kernel, Duration::forever_wait()), Ok(Wait::Done(())));
    assert_eq!(mutex.acquire(&mut kernel, Duration::forever_wait()), Ok(Wait::Done(())));
    assert_eq!(mutex.acquire(&mut kernel, Duration::forever_wait()), Err(OsErr::EBUSY));
    assert_eq!(mutex.held(), 2);
    assert_eq!(kernel.current(), Some(0));
    assert_eq!(mutex.release(&mut kernel, ()), Ok(()));
    assert_eq!(mutex.release(&mut kernel, ()), Ok(()));
    assert_eq!(mutex.release(&mut kernel, ()), Err(()));
}

#[test]
fn a_release_hands_the_mutex_to_the_highest_waiter() {
    let mut kernel = boot();
    let mut mutex = Mutex::new(&mut kernel).unwrap();
    let low = started(&mut kernel, 2, b'l');
    let high = started(&mut kernel, 7, b'h');
    let mid = started(&mut kernel, 7, b'm');
    // the owner has the lowest priority of all and is not raised
    assert_eq!(mutex.acquire(&mut kernel, Duration::no_delay()), Ok(Wait::Done(())));
    kernel.sleep(Duration::from_millis(1));
    assert_eq!(kernel.current(), Some(high));
    kernel.yield_now();
    assert_eq!(kernel.current(), Some(mid));
    kernel.sleep(Duration::from_millis(1));
    assert_eq!(kernel.current(), Some(high));
    kernel.sleep(Duration::from_millis(1));
    assert_eq!(kernel.current(), Some(low));
    assert_eq!(mutex.acquire(&mut kernel, Duration::forever_wait()), Ok(Wait::Pending));
    kernel.tick();
    kernel.isr_exit();
    assert_eq!(kernel.current(), Some(mid));
    assert_eq!(mutex.acquire(&mut kernel, Duration::forever_wait()), Ok(Wait::Pending));
    assert_eq!(kernel.current(), Some(high));
    assert_eq!(mutex.acquire(&mut kernel, Duration::forever_wait()), Ok(Wait::Pending));
    assert_eq!(kernel.current(), Some(0));
    assert_eq!(kernel.thread(0).unwrap().priority, 1);
    assert_eq!(kernel.wait_queue(mutex.handle()), Some(vec![low, mid, high]));
    assert_eq!(mutex.release(&mut kernel, ()), Ok(()));
    assert_eq!(mutex.holder(), Some(mid));
    assert_eq!(mutex.held(), 1);
    assert_eq!(kernel.wait_queue(mutex.handle()), Some(vec![low, high]));
    assert_eq!(kernel.current(), Some(0));
    kernel.yield_now();
    assert_eq!(kernel.current(), Some(mid));
    assert_eq!(mutex.resume(&mut kernel), Ok(()));
    assert_eq!(mutex.release(&mut kernel, ()), Ok(()));
    assert_eq!(mutex.holder(), Some(high));
    assert_eq!(mutex.release(&mut kernel, ()), Err(()));
}

#[test]
fn a_lock_times_out() {
    let mut kernel = boot();
    let mut mutex = Mutex::new(&mut kernel).unwrap();
    let other = started(&mut kernel, 1, b'o');
    assert_eq!(mutex.acquire(&mut kernel, Duration::no_delay()), Ok(Wait::Done(())));
    kernel.yield_now();
    assert_eq!(kernel.current(), Some(other));
    assert_eq!(mutex.acquire(&mut kernel, Duration::from_millis(2)), Ok(Wait::Pending));
    assert_eq!(kernel.current(), Some(0));
    kernel.tick();
    kernel.tick();
    assert_eq!(kernel.waiters(mutex.handle()), 0);
    assert_eq!(mutex.release(&mut kernel, ()), Ok(()));
    assert_eq!(mutex.holder(), None);
    kernel.yield_now();
    assert_eq!(kernel.current(), Some(other));
    assert_eq!(mutex.resume(&mut kernel), Err(OsErr::ETIMEDOUT));
}

#[test]
fn destroying_a_mutex_cancels_its_waiters() {
    let mut kernel = boot();
    let mut mutex = Mutex::new(&mut kernel).unwrap();
    let mut probe = Mutex::new(&mut kernel).unwrap();
    let other = started(&mut kernel, 1, b'o');
    assert_eq!(mutex.acquire(&mut kernel, Duration::no_delay()), Ok(Wait::Done(())));
    kernel.yield_now();
    assert_eq!(mutex.acquire(&mut kernel, Duration::forever_wait()), Ok(Wait::Pending));
    assert_eq!(mutex.destroy(&mut kernel), 1);
    kernel.yield_now();
    assert_eq!(kernel.current(), Some(other));
    assert_eq!(probe.resume(&mut kernel), Err(OsErr::ECANCELED));
}
