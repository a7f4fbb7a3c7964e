//! The body of a `spawn` call site.

use vstd::prelude::*;
use crate::analyze::Analysis;
use crate::ast::{App, Context};

verus! {

/// What a `spawn` call site does with the task's input.
///
/// It takes a free slot from the queue of (task, sender); without one it
/// gives the input back as an error. Else it writes the input, and the
/// instant where the receiver keeps instants, into the slot and queues the
/// receiver's signal with the payload (variant of the task and sender, slot).
#[derive(Clone, Copy, PartialEq, Eq, Structural, Debug)]
pub struct SpawnBody {
    /// The spawned task.
    pub task: usize,
    /// The core of the call site.
    pub sender: u8,
    /// The core that runs the task.
    pub receiver: u8,
    /// The priority of the task.
    pub priority: u8,
    /// Whether the instant is written beside the input.
    pub writes_instant: bool,
    /// The offset of the signal to queue.
    pub signo: u8,
    /// The tag that stands for the task and the sender in the payload: the
    /// position of their variant in the dispatcher of the task.
    pub tag: u8,
    /// In a multi-core application, the core whose thread gets the signal.
    pub tid: Option<u8>,
    /// Whether the free queue is reached through its lock; `init` has the
    /// queue to itself.
    pub locked: bool,
}

/// The body of the `spawn` call sites of `task` in `context`.
pub open spec fn spec_codegen(context: Context, task: usize, app: &App, analysis: &Analysis) -> SpawnBody {
    let spawnee = app.tasks@[task as int];
    SpawnBody {
        task,
        sender: context.spec_executor(app),
        receiver: spawnee.core,
        priority: spawnee.priority,
        writes_instant: app.spec_uses_schedule(spawnee.core),
        signo: analysis.signals@[spawnee.core as int].spec_signal(spawnee.priority),
        tag: crate::codegen::dispatchers::spec_variant(
            task,
            context.spec_executor(app),
            app,
            &analysis.parent,
        )->0 as u8,
        tid: if app.cores == 1 {
            None
        } else {
            Some(spawnee.core)
        },
        locked: !(context is Init),
    }
}

/// Creates the body of the `spawn` call sites of `task` in `context`, whose
/// core can send the task.
pub fn codegen(context: Context, task: usize, app: &App, analysis: &Analysis) -> (b: SpawnBody)
    requires
        analysis.fits(app),
        context.declared(app),
        task < app.tasks@.len(),
        analysis.parent.sendable(app, task, context.spec_executor(app)),
    ensures
        b == spec_codegen(context, task, app, analysis),
{
    let sender: u8 = context.executor(app);
    let spawnee = &app.tasks[task];
    let receiver: u8 = spawnee.core;
    let priority: u8 = spawnee.priority;
    let writes_instant = app.uses_schedule(receiver);
    let signo: u8 = match analysis.signals[receiver as usize].signal(priority) {
        Some(s) => s,
        None => 0,
    };
    let tag: u8 = match crate::codegen::dispatchers::variant(task, sender, app, &analysis.parent) {
        Some(tag) => tag as u8,
        None => 0,
    };
    let tid = if app.cores == 1 {
        None
    } else {
        Some(receiver)
    };
    SpawnBody {
        task,
        sender,
        receiver,
        priority,
        writes_instant,
        signo,
        tag,
        tid,
        locked: !context.is_init(),
    }
}

} // verus!
