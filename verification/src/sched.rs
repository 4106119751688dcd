//! Task management and multitasking: task control blocks, saved CPU
//! contexts, the multi-class scheduler, and blocking with lost-wakeup
//! protection.

pub mod context;
pub mod scheduler;
pub mod task;
