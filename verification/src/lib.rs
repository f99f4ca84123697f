//! A small real-time kernel: task queues ordered by priority, a delta-encoded
//! timeout queue, semaphores, event flags and the system state that decides
//! when a task switch is due.
use vstd::prelude::*;

pub mod context;
pub mod eventflag;
pub mod fifo;
pub mod irc;
pub mod pl390;
pub mod priority_queue;
pub mod queue;
pub mod random;
pub mod register;
pub mod semaphore;
pub mod system;
pub mod task;
pub mod time;
pub mod timeout_queue;
pub mod ttc;

verus! {

/// Task priority; a smaller value is served first.
pub type Priority = u32;

/// A span of time in ticks.
pub type RelativeTime = u32;

/// The system clock in ticks; it wraps around.
pub type SystemTime = u64;

/// Number of pending activations of a task.
pub type ActivateCount = u32;

/// Semaphore resource count.
pub type SemCount = u32;

/// Event flag bit pattern.
pub type FlagPattern = u32;

/// How a wait queue orders its tasks.
#[derive(Clone, Copy, PartialEq, Eq, Structural, Debug)]
pub enum Order {
    Priority,
    Fifo,
}

/// Errors reported by kernel services.
#[derive(Clone, Copy, PartialEq, Eq, Structural, Debug)]
pub enum Error {
    Timeout,
}

} // verus!
