//! The body of a `schedule` call site.

use vstd::prelude::*;
use crate::analyze::Analysis;
use crate::ast::{App, Context};

verus! {

/// What a `schedule` call site does with the instant and the task's input.
///
/// It takes a free slot from the queue of (task, sender); without one it
/// gives the input back as an error. Else it writes the instant, where the
/// receiver keeps instants, and the input into the slot and puts the entry
/// (instant, slot, task) into the sender's timer queue, which raises the
/// timer signal where the entry displaces the head.
#[derive(Clone, Copy, PartialEq, Eq, Structural, Debug)]
pub struct ScheduleBody {
    /// The scheduled task.
    pub task: usize,
    /// The core of the call site, whose timer queue takes the entry.
    pub sender: u8,
    /// The core that runs the task.
    pub receiver: u8,
    /// Whether the instant is written beside the input.
    pub writes_instant: bool,
    /// The offset of the sender's timer signal.
    pub signo: u8,
    /// The tag that stands for the task in the timer queue's entries: the
    /// position of the task among the tasks of the queue.
    pub tag: u8,
    /// In a multi-core application, the core whose thread gets the timer
    /// signal.
    pub tid: Option<u8>,
    /// Whether the free queue and the timer queue are reached through their
    /// locks; `init` has both to itself.
    pub locked: bool,
}

/// The body of the `schedule` call sites of `task` in `ctxt`.
pub open spec fn spec_codegen(ctxt: Context, task: usize, app: &App, analysis: &Analysis) -> ScheduleBody {
    let sender = ctxt.spec_executor(app);
    let schedulee = app.tasks@[task as int];
    ScheduleBody {
        task,
        sender,
        receiver: schedulee.core,
        writes_instant: app.spec_uses_schedule(schedulee.core),
        signo: analysis.signals@[sender as int].spec_signal(
            analysis.parent.spec_timer_queue(sender as int)->0.priority,
        ),
        tag: analysis.parent.spec_timer_queue(sender as int)->0.tasks@.index_of_first(task)->0 as u8,
        tid: if app.cores == 1 {
            None
        } else {
            Some(sender)
        },
        locked: !(ctxt is Init),
    }
}

/// Creates the body of the `schedule` call sites of `task` in `ctxt`, on a
/// core whose timer queue can take the task.
pub fn codegen(ctxt: Context, task: usize, app: &App, analysis: &Analysis) -> (b: ScheduleBody)
    requires
        analysis.fits(app),
        ctxt.declared(app),
        task < app.tasks@.len(),
        ctxt.spec_executor(app) < app.cores,
        analysis.parent.schedulable(task, ctxt.spec_executor(app)),
    ensures
        b == spec_codegen(ctxt, task, app, analysis),
{
    let sender: u8 = ctxt.executor(app);
    let schedulee = &app.tasks[task];
    let receiver: u8 = schedulee.core;
    let (priority, tag): (u8, u8) = match analysis.parent.timer_queue(sender) {
        Some(q) => (
            q.priority,
            match crate::syntax::first_index(&q.tasks, task) {
                Some(tag) => tag as u8,
                None => 0,
            },
        ),
        None => (0, 0),
    };
    let signo: u8 = match analysis.signals[sender as usize].signal(priority) {
        Some(s) => s,
        None => 0,
    };
    let tid = if app.cores == 1 {
        None
    } else {
        Some(sender)
    };
    ScheduleBody {
        task,
        sender,
        receiver,
        writes_instant: app.uses_schedule(receiver),
        signo,
        tag,
        tid,
        locked: !ctxt.is_init(),
    }
}

} // verus!
