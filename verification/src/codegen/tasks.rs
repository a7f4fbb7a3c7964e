//! The software tasks: their buffers, free queues, modules and functions.

use vstd::prelude::*;
use crate::analyze::Analysis;
use crate::ast::{App, Context};
use crate::codegen::module::{self, Module};
use crate::codegen::util::{self, Mutex};

verus! {

/// One entry of the list of what the tasks need.
#[derive(Clone, Copy, PartialEq, Eq, Structural, Debug)]
pub enum Item {
    /// The buffer of `capacity` slots that holds the instants of the inputs
    /// of `task`.
    Instants { task: usize, capacity: u8 },
    /// The buffer of `capacity` slots that holds the inputs of `task`.
    Inputs { task: usize, capacity: u8 },
    /// The free queue of (task, sender), with room for `size` slots, and its
    /// lock where contexts of the sending core contend for it; the lock
    /// masks signals of the sending core.
    FreeQueue { task: usize, sender: u8, size: u8, lock: Option<Mutex> },
    /// The resources of `task`.
    Resources { task: usize },
    /// The module of `task`.
    Module { task: usize, module: Module },
    /// The locals and the function of `task`.
    Function { task: usize },
}

/// The free queues of the first `n` senders of `task`.
pub open spec fn queues(task: int, n: int, app: &App, analysis: &Analysis) -> Seq<Item> {
    Seq::new(
        n as nat,
        |s: int|
            Item::FreeQueue {
                task: task as usize,
                sender: analysis.parent.spec_free_queues(task)[s].sender,
                size: util::next_power_of_two(app.tasks@[task].capacity) as u8,
                lock: match analysis.parent.spec_free_queues(task)[s].ceiling {
                    Some(ceiling) => Some(
                        Mutex {
                            resources_prefix: false,
                            ceiling: analysis.signals@[analysis.parent.spec_free_queues(
                                task,
                            )[s].sender as int].spec_level(ceiling) as u8,
                            start: analysis.signals@[analysis.parent.spec_free_queues(
                                task,
                            )[s].sender as int].spec_range().start,
                            end: analysis.signals@[analysis.parent.spec_free_queues(
                                task,
                            )[s].sender as int].spec_range().end,
                        },
                    ),
                    None => None,
                },
            },
    )
}

/// How many slots `task` has: its capacity for each of its senders.
pub open spec fn slots(task: int, app: &App, analysis: &Analysis) -> int {
    app.tasks@[task].capacity * analysis.parent.spec_free_queues(task).len()
}

/// The buffers and free queues of `task`: none where nobody sends the task.
/// The instants are kept where the task's core schedules.
pub open spec fn buffers(task: int, app: &App, analysis: &Analysis) -> Seq<Item> {
    if analysis.parent.spec_free_queues(task).len() == 0 {
        Seq::empty()
    } else {
        (if app.spec_uses_schedule(app.tasks@[task].core) {
            seq![
                Item::Instants { task: task as usize, capacity: slots(task, app, analysis) as u8 },
            ]
        } else {
            Seq::empty()
        }) + seq![
            Item::Inputs { task: task as usize, capacity: slots(task, app, analysis) as u8 },
        ] + queues(task, analysis.parent.spec_free_queues(task).len() as int, app, analysis)
    }
}

/// What `task` needs; `borrows` says whether its resources borrow.
pub open spec fn task_items(task: int, borrows: bool, app: &App, analysis: &Analysis) -> Seq<Item> {
    let t = app.tasks@[task];
    buffers(task, app, analysis) + (if t.resources@.len() > 0 {
        seq![Item::Resources { task: task as usize }]
    } else {
        Seq::empty()
    }) + seq![
        Item::Module {
            task: task as usize,
            module: module::spec_codegen(
                Context::SoftwareTask(task as usize),
                (t.resources@.len() > 0, borrows),
                t.schedule@.len() > 0,
                t.spawn@.len() > 0,
                false,
                app,
            ),
        },
        Item::Function { task: task as usize },
    ]
}

/// What the first `n` tasks need.
pub open spec fn spec_codegen(n: int, borrows: Seq<bool>, app: &App, analysis: &Analysis) -> Seq<Item>
    decreases n,
{
    if n <= 0 {
        Seq::empty()
    } else {
        spec_codegen(n - 1, borrows, app, analysis) + task_items(n - 1, borrows[n - 1], app, analysis)
    }
}

fn push_buffers(items: &mut Vec<Item>, t: usize, app: &App, analysis: &Analysis)
    requires
        analysis.fits(app),
        t < app.tasks@.len(),
    ensures
        final(items)@ == old(items)@ + buffers(t as int, app, analysis),
{
    let task = &app.tasks[t];
    let senders = &analysis.parent.free_queues[t];
    assert(senders@ == analysis.parent.spec_free_queues(t as int));
    if senders.len() == 0 {
        assert(items@ =~= old(items)@ + buffers(t as int, app, analysis));
        return;
    }
    let n: u8 = #[verifier::truncate]
    (senders.len() as u8);
    assert(task.capacity * n == task.capacity * senders@.len() && task.capacity * n <= 255)
        by (nonlinear_arith)
        requires
            task.capacity * senders@.len() <= 255,
            task.capacity == 0 || n == senders@.len() || senders@.len() > 255,
            task.capacity >= 0,
            senders@.len() >= 0,
    ;
    let cap: u8 = task.capacity * n;
    if app.uses_schedule(task.core) {
        items.push(Item::Instants { task: t, capacity: cap });
    }
    items.push(Item::Inputs { task: t, capacity: cap });
    let size: u8 = util::rounded_capacity(task.capacity, true);
    let ghost before = items@;
    let mut s: usize = 0;
    while s < senders.len()
        invariant
            t < app.tasks@.len(),
            s <= senders@.len(),
            senders@ == analysis.parent.spec_free_queues(t as int),
            analysis.fits(app),
            size == util::next_power_of_two(app.tasks@[t as int].capacity),
            items@ == before + queues(t as int, s as int, app, analysis),
        decreases senders@.len() - s,
    {
        assert(analysis.parent.free_queues@[t as int]@[s as int].sender < app.cores);
        let signals = &analysis.signals[senders[s].sender as usize];
        assert(signals.wf());
        let lock = match senders[s].ceiling {
            Some(ceiling) => Some(
                util::impl_mutex(false, signals.level(ceiling), signals.range()),
            ),
            None => None,
        };
        items.push(Item::FreeQueue { task: t, sender: senders[s].sender, size, lock });
        s += 1;
        assert(items@ =~= before + queues(t as int, s as int, app, analysis));
    }
    assert(items@ =~= old(items)@ + buffers(t as int, app, analysis));
}

/// Creates what the tasks need, task by task: the buffers of the task's
/// slots and one free queue per sender, the task's resources, its module and
/// its function. `borrows` says of each task whether its resources borrow for
/// a lifetime.
pub fn codegen(app: &App, analysis: &Analysis, borrows: &Vec<bool>) -> (items: Vec<Item>)
    requires
        analysis.fits(app),
        borrows@.len() == app.tasks@.len(),
    ensures
        items@ == spec_codegen(app.tasks@.len() as int, borrows@, app, analysis),
{
    let mut items: Vec<Item> = Vec::new();
    let mut t: usize = 0;
    while t < app.tasks.len()
        invariant
            analysis.fits(app),
            borrows@.len() == app.tasks@.len(),
            t <= app.tasks@.len(),
            items@ == spec_codegen(t as int, borrows@, app, analysis),
        decreases app.tasks@.len() - t,
    {
        let task = &app.tasks[t];
        let ghost before = items@;
        push_buffers(&mut items, t, app, analysis);
        if task.resources.len() > 0 {
            items.push(Item::Resources { task: t });
        }
        let m = module::codegen(
            Context::SoftwareTask(t),
            (task.resources.len() > 0, borrows[t]),
            task.schedule.len() > 0,
            task.spawn.len() > 0,
            false,
            app,
        );
        items.push(Item::Module { task: t, module: m });
        items.push(Item::Function { task: t });
        assert(items@ =~= before + task_items(t as int, borrows@[t as int], app, analysis));
        t += 1;
    }
    items
}

} // verus!
