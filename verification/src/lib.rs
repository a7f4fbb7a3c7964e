//! Real-Time For the Masses on Linux: the verified core.
//!
//! Tasks with static priorities run on executors (one pinned thread each).
//! Priorities are carried by real-time signal numbers, the dynamic priority of
//! an executor by its signal mask, and a spawned task by a queued signal whose
//! payload names the task and the slot that holds its input.

pub mod text;
pub mod sys;
pub mod io;
pub mod signal;
pub mod sync;
pub mod export;
pub mod time;
pub mod spsc;
pub mod tq;
pub mod slots;
pub mod ast;
pub mod syntax;
pub mod analyze;
pub mod check;
pub mod obligations;
pub mod codegen;
pub mod entry;

