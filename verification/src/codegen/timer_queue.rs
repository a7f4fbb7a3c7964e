//! The timer queues.

use vstd::prelude::*;
use crate::analyze::Analysis;
use crate::ast::App;
use crate::codegen::util::Mutex;

verus! {

/// One entry of the list of timer queues. A queue is followed by the tasks
/// that can be scheduled on it.
#[derive(Clone, Copy, PartialEq, Eq, Structural, Debug)]
pub enum Item {
    /// The timer queue of `core` with room for `capacity` entries, its timer
    /// and its lock.
    Queue { core: u8, capacity: u8, lock: Mutex },
    /// The task at position `tag` among the tasks that the core schedules.
    Variant { core: u8, tag: usize, task: usize },
}

/// The tasks that can be scheduled on the timer queue of `core`.
pub open spec fn variants(core: u8, analysis: &Analysis) -> Seq<Item> {
    let tasks = analysis.parent.spec_timer_queue(core as int)->0.tasks@;
    Seq::new(tasks.len(), |i: int| Item::Variant { core, tag: i as usize, task: tasks[i] })
}

/// The timer queue of `core`: nothing where the core has none.
pub open spec fn queue(core: u8, analysis: &Analysis) -> Seq<Item> {
    match analysis.parent.spec_timer_queue(core as int) {
        None => Seq::empty(),
        Some(q) => seq![
            Item::Queue {
                core,
                capacity: q.capacity,
                lock: Mutex {
                    resources_prefix: false,
                    ceiling: analysis.signals@[core as int].spec_level(q.ceiling) as u8,
                    start: analysis.signals@[core as int].spec_range().start,
                    end: analysis.signals@[core as int].spec_range().end,
                },
            },
        ] + variants(core, analysis),
    }
}

/// The timer queues of the cores below `n`.
pub open spec fn spec_codegen(n: int, analysis: &Analysis) -> Seq<Item>
    decreases n,
{
    if n <= 0 {
        Seq::empty()
    } else {
        spec_codegen(n - 1, analysis) + queue((n - 1) as u8, analysis)
    }
}

/// The tag of a schedule selects the scheduled task: the variant at the
/// position at which the timer queue first lists `task` is the variant of
/// `task`.
pub proof fn lemma_tag_selects_variant(core: u8, task: usize, analysis: &Analysis)
    requires
        analysis.parent.schedulable(task, core),
    ensures
        ({
            let tag = analysis.parent.spec_timer_queue(core as int)->0.tasks@.index_of_first(
                task,
            )->0;
            &&& 0 <= tag < variants(core, analysis).len()
            &&& variants(core, analysis)[tag] == (Item::Variant { core, tag: tag as usize, task })
        }),
{
    analysis.parent.spec_timer_queue(core as int)->0.tasks@.index_of_first_ensures(task);
}

fn push_queue(items: &mut Vec<Item>, core: u8, app: &App, analysis: &Analysis)
    requires
        analysis.fits(app),
        core < app.cores,
    ensures
        final(items)@ == old(items)@ + queue(core, analysis),
{
    if let Some(q) = analysis.parent.timer_queue(core) {
        let signals = &analysis.signals[core as usize];
        assert(signals.wf());
        let range = signals.range();
        items.push(
            Item::Queue {
                core,
                capacity: q.capacity,
                lock: crate::codegen::util::impl_mutex(false, signals.level(q.ceiling), range),
            },
        );
        let ghost start = items@;
        let mut i: usize = 0;
        while i < q.tasks.len()
            invariant
                i <= q.tasks@.len(),
                analysis.parent.spec_timer_queue(core as int) == Some(*q),
                items@ == start + variants(core, analysis).subrange(0, i as int),
            decreases q.tasks@.len() - i,
        {
            items.push(Item::Variant { core, tag: i, task: q.tasks[i] });
            i += 1;
            assert(items@ =~= start + variants(core, analysis).subrange(0, i as int));
        }
        assert(variants(core, analysis).subrange(0, i as int) =~= variants(core, analysis));
        assert(items@ =~= old(items)@ + queue(core, analysis));
    } else {
        assert(items@ =~= old(items)@ + queue(core, analysis));
    }
}

/// Creates the timer queue of each core that schedules: the tagged union of
/// the tasks that can be scheduled on it, the queue itself with the capacity
/// that the analysis found, the core's timer, and the queue's lock with the
/// queue's ceiling.
pub fn codegen(app: &App, analysis: &Analysis) -> (items: Vec<Item>)
    requires
        analysis.fits(app),
    ensures
        items@ == spec_codegen(app.cores as int, analysis),
{
    let mut items: Vec<Item> = Vec::new();
    let mut core: u8 = 0;
    while core < app.cores
        invariant
            analysis.fits(app),
            core <= app.cores,
            items@ == spec_codegen(core as int, analysis),
        decreases app.cores - core,
    {
        push_queue(&mut items, core, app, analysis);
        core += 1;
    }
    items
}

} // verus!
