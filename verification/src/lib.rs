//! A real-time multitasking kernel for single-core microcontrollers, as a
//! verified state machine: scheduler, tick-driven timeouts and the blocking
//! synchronization primitives built on them.
//!
//! The kernel decides; it does not touch the hardware. Every operation is one
//! step of the state machine in `model`: it takes the kernel from one state
//! to the next and says which thread runs afterwards. The code on the board
//! performs the context switch that a step asks for and calls `tick` from the
//! timer interrupt. A call that has to wait returns `Pending` once the caller
//! is queued; the caller collects the outcome when it runs again.
//!
//! `model` holds the state and its transitions, `steps` and `preserve` show
//! that every transition keeps the invariant, `laws` states what follows for
//! the scheduler, and `kernel` is the executable kernel, whose queues are the
//! intrusive lists of `intrusive`. The primitives are in `mutex`,
//! `semaphore`, `signal`, `msgq` and `workq`.

pub mod config;
pub mod critical_section;
pub mod duration;
pub mod error;
pub mod intrusive;
pub mod kernel;
pub mod laws;
pub mod model;
pub mod preserve;
pub mod msgq;
pub mod mutex;
pub mod queue;
pub mod semaphore;
pub mod signal;
pub mod stack;
pub mod steps;
pub mod thread;
pub mod traits;
pub mod workq;
