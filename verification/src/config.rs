//! The kernel's named options, fixed when the kernel is made.

use vstd::prelude::*;

verus! {

/// The options a kernel is built with.
#[derive(Clone, Copy, Debug)]
pub struct Config {
    /// Keep stack statistics.
    pub statistics: bool,
    /// Check the stack canaries at every context switch.
    pub canaries: bool,
    /// Periodic software timers are wanted. The kernel keeps none itself;
    /// the option is there for the code around it to read.
    pub timers: bool,
    /// Work may be submitted with a delay.
    pub events: bool,
    /// The tick period in microseconds; at least one.
    pub tick_period_us: u32,
    /// The time slice in ticks after which a preemptive thread yields to a
    /// ready peer of its priority; zero for none.
    pub time_slice: u64,
    /// The smallest stack a thread may be created with, in bytes.
    pub min_stack_size: u16,
    /// The stack size of a thread that asks for none, in bytes.
    pub default_stack_size: u16,
    /// How many times a thread may hold one mutex at once.
    pub mutex_max_depth: u8,
    /// The largest item a message queue may carry, in bytes.
    pub msgq_max_item_size: usize,
    /// How many threads the kernel's table holds.
    pub max_threads: usize,
    /// How many wait queues the kernel's table holds.
    pub max_wait_queues: usize,
}

impl Config {
    /// Whether the options can be used: the tick period is not zero and a
    /// stack of the smallest size holds a first context and the canary.
    pub open spec fn valid(self) -> bool {
        &&& self.tick_period_us > 0
        &&& self.min_stack_size >= 40
        &&& self.max_threads >= 1
        &&& self.max_wait_queues >= 1
    }

    /// The options used when none are given.
    pub open spec fn spec_default() -> Config {
        Config {
            statistics: true,
            canaries: true,
            timers: true,
            events: true,
            tick_period_us: 1000,
            time_slice: 0,
            min_stack_size: 64,
            default_stack_size: 256,
            mutex_max_depth: 255,
            msgq_max_item_size: 64,
            max_threads: 32,
            max_wait_queues: 128,
        }
    }

    /// The options used when none are given.
    pub fn new() -> (c: Config)
        ensures
            c == Config::spec_default(),
            c.valid(),
    {
        Config {
            statistics: true,
            canaries: true,
            timers: true,
            events: true,
            tick_period_us: 1000,
            time_slice: 0,
            min_stack_size: 64,
            default_stack_size: 256,
            mutex_max_depth: 255,
            msgq_max_item_size: 64,
            max_threads: 32,
            max_wait_queues: 128,
        }
    }

    /// Tests whether the options can be used.
    pub fn is_valid(&self) -> (b: bool)
        ensures
            b == self.valid(),
    {
        self.tick_period_us > 0 && self.min_stack_size >= 40 && self.max_threads >= 1
            && self.max_wait_queues >= 1
    }
}

} // verus!
