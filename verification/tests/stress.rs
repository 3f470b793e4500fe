use avrtos::config::Config;
use avrtos::duration::Duration;
use avrtos::kernel::{ticks_until, InitGuard, Kernel, KernelParams};
use avrtos::thread::{Priority, ThreadState, WakeCause};

struct Dice(u64);

impl Dice {
    fn roll(&mut self, sides: u64) -> u64 {
        self.0 = self.0.wrapping_mul(6364136223846793005).wrapping_add(1442695040888963407);
        (self.0 >> 33) % sides
    }
}

fn check(kernel: &Kernel) {
    let n = kernel.thread_count();
    let ready = kernel.ready_queue();
    let timeouts = kernel.timeout_queue();
    let now = kernel.ticks_now();
    let mut running = 0;
    for t in 0..n {
        let tcb = kernel.thread(t).unwrap();
        if tcb.state == ThreadState::Running {
            running += 1;
            assert_eq!(kernel.current(), Some(t));
        }
        assert_eq!(ready.iter().filter(|&&x| x == t).count(), (tcb.state == ThreadState::Ready) as usize);
        assert_eq!(timeouts.iter().filter(|&&x| x == t).count(), tcb.timed as usize);
        let mut queued = 0;
        for w in 0..kernel.queue_count() {
            let here = kernel.wait_queue(w).unwrap().iter().filter(|&&x| x == t).count();
            if here > 0 {
                assert_eq!(tcb.state, ThreadState::Waiting);
                assert_eq!(tcb.waiting_on, w);
            }
            queued += here;
        }
        assert_eq!(queued, (tcb.state == ThreadState::Waiting) as usize);
        if tcb.timed {
            assert!(tcb.state == ThreadState::Waiting || tcb.state == ThreadState::Sleeping);
            assert!(ticks_until(tcb.deadline, now) >= 1);
        }
        assert!(tcb.join_queue < kernel.queue_count());
    }
    assert_eq!(running, kernel.current().is_some() as usize);
    for pair in ready.windows(2) {
        let a = kernel.thread(pair[0]).unwrap().priority;
        let b = kernel.thread(pair[1]).unwrap().priority;
        assert!(a >= b);
    }
    for pair in timeouts.windows(2) {
        let a = ticks_until(kernel.thread(pair[0]).unwrap().deadline, now);
        let b = ticks_until(kernel.thread(pair[1]).unwrap().deadline, now);
        assert!(a <= b);
    }
    if let (Some(c), Some(h)) = (kernel.current(), kernel.select_next()) {
        assert_eq!(h, ready[0]);
        let _ = c;
    }
}

fn run(seed: u64, steps: usize, time_slice: u64) {
    let mut dice = Dice(seed);
    let mut guard = InitGuard::new();
    let mut config = Config::new();
    config.time_slice = time_slice;
    config.max_threads = 12;
    let mut kernel = Kernel::init_with_config(&mut guard, KernelParams::default(), config).unwrap();
    let mut queues = vec![0usize];
    for _ in 0..3 {
        queues.push(kernel.add_queue().unwrap());
    }
    check(&kernel);
    for _ in 0..steps {
        let w = queues[dice.roll(queues.len() as u64) as usize];
        let wait = match dice.roll(4) {
            0 => Duration::no_delay(),
            1 => Duration::forever_wait(),
            _ => Duration::from_millis(1 + dice.roll(6) as u32),
        };
        match dice.roll(12) {
            0 => {
                let class = if dice.roll(2) == 0 { Priority::Cooperative } else { Priority::Preemptive };
                let priority = dice.roll(4) as u8;
                if let Ok(t) = kernel.thread_create(vec![0; 64], priority, class, b't', 0, 0) {
                    queues.push(kernel.thread(t).unwrap().join_queue);
                    if dice.roll(4) != 0 {
                        kernel.thread_start(t).unwrap();
                    }
                }
            }
            1 => kernel.yield_now(),
            2 => kernel.sleep(wait),
            3 | 4 => {
                let _ = kernel.block_on(w, wait);
            }
            5 => {
                let before = kernel.current();
                let woken = kernel.wake_first(w, vec![1]);
                assert_eq!(kernel.current(), before);
                if let Some(t) = woken {
                    assert_eq!(kernel.thread(t).unwrap().state, ThreadState::Ready);
                }
            }
            6 => {
                let _ = kernel.wake_highest(w, vec![]);
            }
            7 => {
                let cause = if dice.roll(2) == 0 { WakeCause::Event } else { WakeCause::Canceled };
                let count = kernel.waiters(w);
                assert_eq!(kernel.wake_all(w, cause, &vec![7, 7]), count);
                assert_eq!(kernel.waiters(w), 0);
            }
            8 => {
                if dice.roll(6) == 0 {
                    kernel.thread_exit();
                } else {
                    let _ = kernel.collect();
                }
            }
            9 => {
                let t = dice.roll(kernel.thread_count() as u64) as usize;
                let _ = kernel.thread_start(t);
                let _ = kernel.join(t, wait);
            }
            _ => {
                let now = kernel.ticks_now();
                let due: Vec<usize> = kernel
                    .timeout_queue()
                    .into_iter()
                    .filter(|&t| ticks_until(kernel.thread(t).unwrap().deadline, now) == 1)
                    .collect();
                kernel.tick();
                assert_eq!(kernel.ticks_now(), now + 1);
                for t in due {
                    let tcb = kernel.thread(t).unwrap();
                    assert_eq!(tcb.state, ThreadState::Ready);
                    assert!(tcb.timer_expired);
                }
                check(&kernel);
                kernel.isr_exit();
            }
        }
        check(&kernel);
    }
}

#[test]
fn the_queues_agree_with_the_states_after_every_step() {
    for seed in 1..40 {
        run(seed, 400, 0);
    }
}

#[test]
fn the_queues_agree_with_the_states_with_a_time_slice() {
    for seed in 100..120 {
        run(seed, 400, 3);
    }
}
