use avrtos::config::Config;
use avrtos::duration::Duration;
use avrtos::kernel::{InitGuard, Kernel, KernelParams};
use avrtos::thread::{spawn, Priority, ThreadId, ThreadState};

struct Run {
    counter: u32,
    spins: u64,
    prints: u32,
    late_wakes: u32,
    woke_at: Vec<u64>,
}

// Thread "1" counts and sleeps a second, thread "2" spins, thread "3" runs once and exits.
// While thread "2" spins, or while nobody runs, time passes: one tick per step.
fn three_seconds(kernel: &mut Kernel, one: ThreadId, two: ThreadId, three: ThreadId) -> Run {
    let mut run = Run { counter: 0, spins: 0, prints: 0, late_wakes: 0, woke_at: Vec::new() };
    kernel.sleep(Duration::forever_wait());
    while kernel.ticks_now() < 3000 {
        match kernel.current() {
            Some(t) if t == one => {
                run.counter += 1;
                run.woke_at.push(kernel.ticks_now());
                kernel.sleep(Duration::from_secs(1));
            }
            Some(t) if t == three => {
                kernel.thread_exit();
            }
            Some(t) if t == two => {
                run.spins += 0x1000;
                if run.spins % 0x100000 == 0 {
                    run.prints += 1;
                }
                kernel.tick();
                kernel.isr_exit();
            }
            Some(_) => panic!("the main thread sleeps"),
            None => {
                kernel.tick();
                kernel.isr_exit();
            }
        }
        if kernel.thread(one).unwrap().state == ThreadState::Ready
            && kernel.current() == Some(two)
            && kernel.thread(one).unwrap().priority > kernel.thread(two).unwrap().priority
        {
            run.late_wakes += 1;
        }
    }
    run
}

#[test]
fn three_threads_for_three_seconds() {
    let mut guard = InitGuard::new();
    let mut kernel = Kernel::init(&mut guard).unwrap();
    let one = spawn(&mut kernel, 620, Priority::Cooperative, b'1', 0x100, 0).unwrap().get_thread_ptr();
    let two = spawn(&mut kernel, 620, Priority::Preemptive, b'2', 0x200, 0).unwrap().get_thread_ptr();
    let three = spawn(&mut kernel, 620, Priority::Cooperative, b'3', 0x300, 0).unwrap().get_thread_ptr();
    let run = three_seconds(&mut kernel, one, two, three);
    assert_eq!(kernel.ticks_now(), 3000);
    assert_eq!(run.counter, 3);
    assert_eq!(run.woke_at, vec![0, 1000, 2000]);
    assert_eq!(kernel.thread(three).unwrap().state, ThreadState::Terminated);
    assert_eq!(run.spins, 3000 * 0x1000);
    assert_eq!(run.prints, 11);
    assert_eq!(run.late_wakes, 0);
    assert_eq!(kernel.thread(one).unwrap().state, ThreadState::Running);
    assert_eq!(kernel.thread(two).unwrap().state, ThreadState::Ready);
    assert_eq!(kernel.check_stack_canaries(one), Some(true));
}

#[test]
fn three_threads_of_one_priority_with_a_time_slice() {
    let mut guard = InitGuard::new();
    let mut config = Config::new();
    config.time_slice = 4;
    let mut kernel = Kernel::init_with_config(&mut guard, KernelParams::default(), config).unwrap();
    let one = kernel.thread_create(vec![0; 620], 1, Priority::Cooperative, b'1', 0x100, 0).unwrap();
    let two = kernel.thread_create(vec![0; 620], 1, Priority::Preemptive, b'2', 0x200, 0).unwrap();
    let three = kernel.thread_create(vec![0; 620], 1, Priority::Cooperative, b'3', 0x300, 0).unwrap();
    kernel.thread_start(one).unwrap();
    kernel.thread_start(two).unwrap();
    kernel.thread_start(three).unwrap();
    let run = three_seconds(&mut kernel, one, two, three);
    assert_eq!(run.counter, 3);
    assert_eq!(run.woke_at, vec![0, 1000, 2000]);
    assert_eq!(kernel.thread(three).unwrap().state, ThreadState::Terminated);
    assert!(run.spins > 0);
}

#[test]
fn a_spinning_preemptive_thread_of_equal_priority_starves_a_sleeper_without_a_time_slice() {
    let mut guard = InitGuard::new();
    let mut kernel = Kernel::init(&mut guard).unwrap();
    let one = kernel.thread_create(vec![0; 620], 1, Priority::Cooperative, b'1', 0x100, 0).unwrap();
    let two = kernel.thread_create(vec![0; 620], 1, Priority::Preemptive, b'2', 0x200, 0).unwrap();
    let three = kernel.thread_create(vec![0; 620], 1, Priority::Cooperative, b'3', 0x300, 0).unwrap();
    kernel.thread_start(one).unwrap();
    kernel.thread_start(two).unwrap();
    kernel.thread_start(three).unwrap();
    let run = three_seconds(&mut kernel, one, two, three);
    assert_eq!(run.counter, 1);
    assert_eq!(kernel.thread(one).unwrap().state, ThreadState::Ready);
    assert_eq!(kernel.thread(three).unwrap().state, ThreadState::Ready);
}
