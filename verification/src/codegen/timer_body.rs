//! The body of a timer queue's handler.

use vstd::prelude::*;
use crate::analyze::Analysis;
use crate::ast::App;

verus! {

/// What the timer handler does with a task that became ready: it queues the
/// signal of the task's dispatcher, as a spawn from the handler's core does.
#[derive(Clone, Copy, PartialEq, Eq, Structural, Debug)]
pub struct Arm {
    /// The task.
    pub task: usize,
    /// The core of the timer queue.
    pub sender: u8,
    /// The core that runs the task.
    pub receiver: u8,
    /// The priority of the task.
    pub priority: u8,
    /// The offset of the signal to queue.
    pub signo: u8,
    /// The tag that stands for the task and the timer queue's core in the
    /// payload.
    pub tag: u8,
    /// In a multi-core application, the core whose thread gets the signal.
    pub tid: Option<u8>,
}

/// The arm of task `task` in the handler of the timer queue of `sender`.
pub open spec fn spec_arm(sender: u8, task: usize, app: &App, analysis: &Analysis) -> Arm {
    let t = app.tasks@[task as int];
    Arm {
        task,
        sender,
        receiver: t.core,
        priority: t.priority,
        signo: analysis.signals@[t.core as int].spec_signal(t.priority),
        tag: crate::codegen::dispatchers::spec_variant(task, sender, app, &analysis.parent)->0 as u8,
        tid: if app.cores == 1 {
            None
        } else {
            Some(t.core)
        },
    }
}

/// The handler of the timer queue of `sender`: while the queue hands out a
/// ready task, the arm of that task runs. One arm per task of the queue, in
/// the queue's order.
pub open spec fn spec_codegen(sender: u8, app: &App, analysis: &Analysis) -> Seq<Arm> {
    analysis.parent.spec_timer_queue(sender as int)->0.tasks@.map_values(
        |task: usize| spec_arm(sender, task, app, analysis),
    )
}

/// Creates the arms of the handler of the timer queue of `sender`.
pub fn codegen(sender: u8, app: &App, analysis: &Analysis) -> (arms: Vec<Arm>)
    requires
        analysis.fits(app),
        sender < app.cores,
        analysis.parent.spec_timer_queue(sender as int) is Some,
    ensures
        arms@ == spec_codegen(sender, app, analysis),
{
    let mut arms: Vec<Arm> = Vec::new();
    let queue = analysis.parent.timer_queues[sender as usize].as_ref().unwrap();
    let mut i: usize = 0;
    while i < queue.tasks.len()
        invariant
            analysis.fits(app),
            sender < app.cores,
            *queue == analysis.parent.spec_timer_queue(sender as int)->0,
            analysis.parent.spec_timer_queue(sender as int) is Some,
            i <= queue.tasks@.len(),
            arms@.len() == i,
            forall|k: int|
                0 <= k < i ==> #[trigger] arms@[k] == spec_arm(sender, queue.tasks@[k], app, analysis),
        decreases queue.tasks@.len() - i,
    {
        let task: usize = queue.tasks[i];
        assert(analysis.parent.timer_queues@[sender as int] is Some);
        assert(task < app.tasks@.len());
        let t = &app.tasks[task];
        let signo: u8 = match analysis.signals[t.core as usize].signal(t.priority) {
            Some(s) => s,
            None => 0,
        };
        assert(analysis.parent.sendable(app, task, sender)) by {
            assert(analysis.parent.timer_queues@[sender as int]->0.tasks@[i as int] == task);
        }
        let tag: u8 = match crate::codegen::dispatchers::variant(task, sender, app, &analysis.parent) {
            Some(tag) => tag as u8,
            None => 0,
        };
        let tid = if app.cores == 1 {
            None
        } else {
            Some(t.core)
        };
        arms.push(Arm { task, sender, receiver: t.core, priority: t.priority, signo, tag, tid });
        i += 1;
    }
    assert(arms@ =~= spec_codegen(sender, app, analysis));
    arms
}

} // verus!
