//! The dispatchers: one signal handler per core and priority level, and the
//! handler of a timer queue that has a priority to itself.

use vstd::prelude::*;
use crate::analyze::Analysis;
use crate::ast::App;
use crate::codegen::timer_body;
use crate::syntax::{Channel, Dispatcher};

verus! {

/// One entry of the list of dispatchers. A handler is followed by its arms.
#[derive(Clone, Copy, PartialEq, Eq, Structural, Debug)]
pub enum Item {
    /// The handler of the signal at offset `signal`, which dispatches the
    /// tasks of priority `priority` on `core`. The tasks form a tagged union
    /// named after core and priority; the handler reads the payload, takes
    /// the variant from its high byte and the slot from its low byte, and
    /// runs the arm of the variant at the level `level` of the priority, by
    /// which the runtime knows the priority. Where the timer
    /// queue of the core has the same priority (`timer`), the handler first
    /// tells a spawn from the timer by the signal's code, and on the timer
    /// drains the timer queue.
    Dispatcher { core: u8, priority: u8, level: u8, signal: u8, timer: bool },
    /// The arm of the variant at position `tag`: it reads the input of
    /// `task` (and its instant, where `instant`) from the slot, returns the
    /// slot to the free queue of (task, sender) and calls the task.
    Arm { tag: usize, task: usize, sender: u8, instant: bool },
    /// The handler of the timer queue of `core`, whose priority no task
    /// shares.
    Timer { core: u8, priority: u8, level: u8, signal: u8 },
    /// An arm of the timer queue's handler.
    Timed(timer_body::Arm),
}

/// The arms of one channel, the first of which has the tag `first`.
pub open spec fn channel_arms(ch: Channel, first: int, instant: bool) -> Seq<Item> {
    Seq::new(
        ch.tasks@.len(),
        |i: int| Item::Arm { tag: (first + i) as usize, task: ch.tasks@[i], sender: ch.sender, instant },
    )
}

/// The arms of the first `n` channels of a dispatcher.
pub open spec fn arms(channels: Seq<Channel>, n: int, instant: bool) -> Seq<Item>
    decreases n,
{
    if n <= 0 {
        Seq::empty()
    } else {
        arms(channels, n - 1, instant) + channel_arms(
            channels[n - 1],
            arms(channels, n - 1, instant).len() as int,
            instant,
        )
    }
}

/// What a channel sends: its tasks, each with the sending core.
pub open spec fn channel_entries(ch: Channel) -> Seq<(usize, u8)> {
    ch.tasks@.map_values(|task: usize| (task, ch.sender))
}

/// What the first `n` channels of a dispatcher send, channel by channel:
/// the variants of the dispatcher's tagged union, in the order of their tags.
pub open spec fn entries(channels: Seq<Channel>, n: int) -> Seq<(usize, u8)>
    decreases n,
{
    if n <= 0 {
        Seq::empty()
    } else {
        entries(channels, n - 1) + channel_entries(channels[n - 1])
    }
}

/// The priorities of a list of dispatchers.
pub open spec fn levels(list: Seq<Dispatcher>) -> Seq<u8> {
    list.map_values(|d: Dispatcher| d.priority)
}

/// The tag that stands for task `task`, sent from core `sender`, in the
/// payload of a signal: the position of (task, sender) among the variants of
/// the dispatcher that has the task's priority on the task's core. `None`
/// where no dispatcher has a variant for the pair.
pub open spec fn spec_variant(
    task: usize,
    sender: u8,
    app: &App,
    parent: &crate::syntax::Analysis,
) -> Option<int> {
    let t = app.tasks@[task as int];
    let list = parent.spec_dispatchers(t.core as int);
    match levels(list).index_of_first(t.priority) {
        Some(d) => entries(list[d].channels@, list[d].channels@.len() as int).index_of_first(
            (task, sender),
        ),
        None => None,
    }
}

/// The payload of a spawn selects the arm of the spawned task: in the
/// dispatcher of the task's priority on the task's core, the arm whose tag
/// is the variant of (task, sender) dispatches `task` for `sender`.
pub proof fn lemma_variant_selects_arm(
    task: usize,
    sender: u8,
    app: &App,
    parent: &crate::syntax::Analysis,
    instant: bool,
)
    requires
        spec_variant(task, sender, app, parent) is Some,
        spec_variant(task, sender, app, parent)->0 < usize::MAX,
    ensures
        ({
            let t = app.tasks@[task as int];
            let list = parent.spec_dispatchers(t.core as int);
            let d = levels(list).index_of_first(t.priority)->0;
            let tag = spec_variant(task, sender, app, parent)->0;
            &&& 0 <= d < list.len()
            &&& list[d].priority == t.priority
            &&& 0 <= tag < arms(list[d].channels@, list[d].channels@.len() as int, instant).len()
            &&& arms(list[d].channels@, list[d].channels@.len() as int, instant)[tag] == (
            Item::Arm { tag: tag as usize, task, sender, instant })
        }),
{
    let t = app.tasks@[task as int];
    let list = parent.spec_dispatchers(t.core as int);
    levels(list).index_of_first_ensures(t.priority);
    let d = levels(list).index_of_first(t.priority)->0;
    let all = entries(list[d].channels@, list[d].channels@.len() as int);
    all.index_of_first_ensures((task, sender));
    let tag = all.index_of_first((task, sender))->0;
    assert(levels(list)[d] == list[d].priority);
    lemma_entries_prefix(list[d].channels@, list[d].channels@.len() as int, tag + 1);
    if instant {
        assert(arms(list[d].channels@, list[d].channels@.len() as int, true)[tag] == (
        Item::Arm { tag: tag as usize, task: all[tag].0, sender: all[tag].1, instant: true }));
    } else {
        lemma_arms_len(list[d].channels@, list[d].channels@.len() as int, false);
        assert(arms(list[d].channels@, list[d].channels@.len() as int, true)[tag] == (
        Item::Arm { tag: tag as usize, task: all[tag].0, sender: all[tag].1, instant: true }));
    }
}

/// The variants up to a position are the variants of some channels.
proof fn lemma_entries_prefix(channels: Seq<Channel>, n: int, upto: int)
    requires
        0 <= n <= channels.len(),
        0 <= upto <= entries(channels, n).len(),
        upto <= usize::MAX,
    ensures
        forall|i: int|
            0 <= i < upto ==> 0 <= i < arms(channels, n, true).len() && 0 <= i < arms(
                channels,
                n,
                false,
            ).len() && (#[trigger] arms(channels, n, true)[i]) == (Item::Arm {
                tag: i as usize,
                task: entries(channels, n)[i].0,
                sender: entries(channels, n)[i].1,
                instant: true,
            }) && arms(channels, n, false)[i] == (Item::Arm {
                tag: i as usize,
                task: entries(channels, n)[i].0,
                sender: entries(channels, n)[i].1,
                instant: false,
            }),
    decreases n,
{
    if n > 0 {
        let before = entries(channels, n - 1);
        let ch = channels[n - 1];
        lemma_arms_len(channels, n - 1, true);
        lemma_arms_len(channels, n - 1, false);
        lemma_arms_len(channels, n, true);
        lemma_arms_len(channels, n, false);
        if upto <= before.len() {
            lemma_entries_prefix(channels, n - 1, upto);
            assert forall|i: int| 0 <= i < upto implies (#[trigger] arms(channels, n, true)[i])
                == arms(channels, n - 1, true)[i] && arms(channels, n, false)[i] == arms(
                channels,
                n - 1,
                false,
            )[i] && entries(channels, n)[i] == before[i] by {}
        } else {
            lemma_entries_prefix(channels, n - 1, before.len() as int);
            assert forall|i: int| 0 <= i < upto implies (#[trigger] arms(channels, n, true)[i])
                == (Item::Arm {
                tag: i as usize,
                task: entries(channels, n)[i].0,
                sender: entries(channels, n)[i].1,
                instant: true,
            }) && arms(channels, n, false)[i] == (Item::Arm {
                tag: i as usize,
                task: entries(channels, n)[i].0,
                sender: entries(channels, n)[i].1,
                instant: false,
            }) by {
                if i < before.len() {
                    assert(arms(channels, n, true)[i] == arms(channels, n - 1, true)[i]);
                    assert(arms(channels, n, false)[i] == arms(channels, n - 1, false)[i]);
                    assert(entries(channels, n)[i] == before[i]);
                } else {
                    let k = i - before.len();
                    assert(entries(channels, n)[i] == channel_entries(ch)[k]);
                    assert(arms(channels, n, true)[i] == channel_arms(
                        ch,
                        before.len() as int,
                        true,
                    )[k]);
                    assert(arms(channels, n, false)[i] == channel_arms(
                        ch,
                        before.len() as int,
                        false,
                    )[k]);
                }
            }
        }
    }
}

/// A dispatcher has as many arms as variants.
proof fn lemma_arms_len(channels: Seq<Channel>, n: int, instant: bool)
    requires
        0 <= n <= channels.len(),
    ensures
        arms(channels, n, instant).len() == entries(channels, n).len(),
    decreases n,
{
    if n > 0 {
        lemma_arms_len(channels, n - 1, instant);
    }
}

/// The variants of dispatcher `d`, in the order of their tags.
pub fn variants(d: &Dispatcher) -> (list: Vec<(usize, u8)>)
    ensures
        list@ == entries(d.channels@, d.channels@.len() as int),
{
    let mut list: Vec<(usize, u8)> = Vec::new();
    let mut c: usize = 0;
    while c < d.channels.len()
        invariant
            c <= d.channels@.len(),
            list@ == entries(d.channels@, c as int),
        decreases d.channels@.len() - c,
    {
        let ch = &d.channels[c];
        let ghost before = list@;
        let mut i: usize = 0;
        while i < ch.tasks.len()
            invariant
                i <= ch.tasks@.len(),
                list@ == before + channel_entries(*ch).subrange(0, i as int),
            decreases ch.tasks@.len() - i,
        {
            list.push((ch.tasks[i], ch.sender));
            i += 1;
            assert(list@ =~= before + channel_entries(*ch).subrange(0, i as int));
        }
        assert(channel_entries(*ch).subrange(0, i as int) =~= channel_entries(*ch));
        c += 1;
    }
    list
}

/// The tag of task `task`, sent from core `sender`.
pub fn variant(task: usize, sender: u8, app: &App, parent: &crate::syntax::Analysis) -> (r: Option<
    usize,
>)
    requires
        task < app.tasks@.len(),
    ensures
        r is Some <==> spec_variant(task, sender, app, parent) is Some,
        r matches Some(tag) ==> spec_variant(task, sender, app, parent) == Some(tag as int),
{
    let t = &app.tasks[task];
    if (t.core as usize) >= parent.channels.len() {
        proof {
            levels(parent.spec_dispatchers(t.core as int)).index_of_first_ensures(t.priority);
        }
        return None;
    }
    let list = &parent.channels[t.core as usize];
    assert(list@ == parent.spec_dispatchers(t.core as int));
    proof {
        levels(list@).index_of_first_ensures(t.priority);
    }
    let mut d: usize = 0;
    while d < list.len()
        invariant
            d <= list@.len(),
            task < app.tasks@.len(),
            *t == app.tasks@[task as int],
            list@ == parent.spec_dispatchers(t.core as int),
            forall|k: int| 0 <= k < d ==> levels(list@)[k] != t.priority,
        decreases list@.len() - d,
    {
        if list[d].priority == t.priority {
            proof {
                assert(levels(list@)[d as int] == t.priority);
                levels(list@).index_of_first_ensures(t.priority);
                assert(levels(list@).index_of_first(t.priority) == Some(d as int));
            }
            let all = variants(&list[d]);
            let mut i: usize = 0;
            while i < all.len()
                invariant
                    i <= all@.len(),
                    task < app.tasks@.len(),
                    d < list@.len(),
                    list@ == parent.spec_dispatchers(app.tasks@[task as int].core as int),
                    levels(list@).index_of_first(app.tasks@[task as int].priority) == Some(
                        d as int,
                    ),
                    all@ == entries(list@[d as int].channels@, list@[d as int].channels@.len() as int),
                    forall|k: int| 0 <= k < i ==> all@[k] != (task, sender),
                decreases all@.len() - i,
            {
                if all[i].0 == task && all[i].1 == sender {
                    proof {
                        assert(all@[i as int] == (task, sender));
                        all@.index_of_first_ensures((task, sender));
                        assert(all@.index_of_first((task, sender)) == Some(i as int));
                    }
                    return Some(i);
                }
                i += 1;
            }
            proof {
                all@.index_of_first_ensures((task, sender));
                assert(!all@.contains((task, sender)));
            }
            return None;
        }
        d += 1;
    }
    proof {
        levels(list@).index_of_first_ensures(t.priority);
        assert(!levels(list@).contains(t.priority));
    }
    None
}

/// The arms of the timer queue's handler on `core`.
pub open spec fn timed(core: u8, app: &App, analysis: &Analysis) -> Seq<Item> {
    timer_body::spec_codegen(core, app, analysis).map_values(|a: timer_body::Arm| Item::Timed(a))
}

/// Whether the timer queue of `core` runs at `priority`.
pub open spec fn shares_timer(core: u8, priority: u8, analysis: &Analysis) -> bool {
    analysis.parent.spec_timer_queue(core as int) matches Some(q) && q.priority == priority
}

/// The handler of dispatcher `d` on `core`, with its arms.
pub open spec fn dispatcher(d: Dispatcher, core: u8, app: &App, analysis: &Analysis) -> Seq<Item> {
    seq![
        Item::Dispatcher {
            core,
            priority: d.priority,
            level: analysis.signals@[core as int].spec_level(d.priority) as u8,
            signal: analysis.signals@[core as int].spec_signal(d.priority),
            timer: shares_timer(core, d.priority, analysis),
        },
    ] + arms(d.channels@, d.channels@.len() as int, app.spec_uses_schedule(core)) + (
    if shares_timer(core, d.priority, analysis) {
        timed(core, app, analysis)
    } else {
        Seq::empty()
    })
}

/// The first `n` dispatchers of `core`.
pub open spec fn dispatchers(n: int, core: u8, app: &App, analysis: &Analysis) -> Seq<Item>
    decreases n,
{
    if n <= 0 {
        Seq::empty()
    } else {
        dispatchers(n - 1, core, app, analysis) + dispatcher(
            analysis.parent.spec_dispatchers(core as int)[n - 1],
            core,
            app,
            analysis,
        )
    }
}

/// Whether the timer queue of `core` needs a handler of its own: the core
/// has dispatchers and a timer queue, and none of the dispatchers has the
/// queue's priority.
pub open spec fn lone_timer(core: u8, analysis: &Analysis) -> bool {
    &&& analysis.parent.spec_dispatchers(core as int).len() > 0
    &&& analysis.parent.spec_timer_queue(core as int) is Some
    &&& !analysis.parent.spec_dispatches(
        core as int,
        analysis.parent.spec_timer_queue(core as int)->0.priority,
    )
}

/// The handlers of `core`.
pub open spec fn handlers(core: u8, app: &App, analysis: &Analysis) -> Seq<Item> {
    dispatchers(
        analysis.parent.spec_dispatchers(core as int).len() as int,
        core,
        app,
        analysis,
    ) + (if lone_timer(core, analysis) {
        let q = analysis.parent.spec_timer_queue(core as int)->0;
        seq![
            Item::Timer {
                core,
                priority: q.priority,
                level: analysis.signals@[core as int].spec_level(q.priority) as u8,
                signal: analysis.signals@[core as int].spec_signal(q.priority),
            },
        ] + timed(core, app, analysis)
    } else {
        Seq::empty()
    })
}

/// The handlers of the cores below `n`.
pub open spec fn spec_codegen(n: int, app: &App, analysis: &Analysis) -> Seq<Item>
    decreases n,
{
    if n <= 0 {
        Seq::empty()
    } else {
        spec_codegen(n - 1, app, analysis) + handlers((n - 1) as u8, app, analysis)
    }
}

fn push_timed(items: &mut Vec<Item>, core: u8, app: &App, analysis: &Analysis)
    requires
        analysis.fits(app),
        core < app.cores,
        analysis.parent.spec_timer_queue(core as int) is Some,
    ensures
        final(items)@ == old(items)@ + timed(core, app, analysis),
{
    let body = timer_body::codegen(core, app, analysis);
    let mut i: usize = 0;
    while i < body.len()
        invariant
            i <= body@.len(),
            body@ == timer_body::spec_codegen(core, app, analysis),
            items@ == old(items)@ + timed(core, app, analysis).subrange(0, i as int),
        decreases body@.len() - i,
    {
        items.push(Item::Timed(body[i]));
        i += 1;
        assert(items@ =~= old(items)@ + timed(core, app, analysis).subrange(0, i as int));
    }
    assert(timed(core, app, analysis).subrange(0, i as int) =~= timed(core, app, analysis));
}

fn push_arms(items: &mut Vec<Item>, d: &Dispatcher, instant: bool)
    ensures
        final(items)@ == old(items)@ + arms(d.channels@, d.channels@.len() as int, instant),
{
    let base: usize = items.len();
    let mut c: usize = 0;
    assert(items@ =~= old(items)@ + arms(d.channels@, 0, instant));
    while c < d.channels.len()
        invariant
            c <= d.channels@.len(),
            base == old(items)@.len(),
            items@ == old(items)@ + arms(d.channels@, c as int, instant),
        decreases d.channels@.len() - c,
    {
        let ch = &d.channels[c];
        let ghost before = items@;
        let ghost first = arms(d.channels@, c as int, instant).len() as int;
        let mut i: usize = 0;
        while i < ch.tasks.len()
            invariant
                i <= ch.tasks@.len(),
                first >= 0,
                before.len() == base + first,
                items@ == before + channel_arms(*ch, first, instant).subrange(0, i as int),
            decreases ch.tasks@.len() - i,
        {
            let tag: usize = items.len() - base;
            items.push(Item::Arm { tag, task: ch.tasks[i], sender: ch.sender, instant });
            i += 1;
            assert(items@ =~= before + channel_arms(*ch, first, instant).subrange(0, i as int));
        }
        assert(channel_arms(*ch, first, instant).subrange(0, i as int) =~= channel_arms(
            *ch,
            first,
            instant,
        ));
        c += 1;
        assert(items@ =~= old(items)@ + arms(d.channels@, c as int, instant));
    }
}

/// Creates the handlers of the application, core by core. On each core the
/// dispatchers come by ascending priority; a timer queue whose priority no
/// dispatcher has gets its own handler after them.
pub fn codegen(app: &App, analysis: &Analysis) -> (items: Vec<Item>)
    requires
        analysis.fits(app),
    ensures
        items@ == spec_codegen(app.cores as int, app, analysis),
{
    let mut items: Vec<Item> = Vec::new();
    let mut core: u8 = 0;
    while core < app.cores
        invariant
            analysis.fits(app),
            core <= app.cores,
            items@ == spec_codegen(core as int, app, analysis),
        decreases app.cores - core,
    {
        let ghost start = items@;
        let list = &analysis.parent.channels[core as usize];
        assert(list@ == analysis.parent.spec_dispatchers(core as int));
        let instant = app.uses_schedule(core);
        let mut d: usize = 0;
        assert(items@ =~= start + dispatchers(0, core, app, analysis));
        while d < list.len()
            invariant
                analysis.fits(app),
                core < app.cores,
                d <= list@.len(),
                list@ == analysis.parent.spec_dispatchers(core as int),
                instant == app.spec_uses_schedule(core),
                items@ == start + dispatchers(d as int, core, app, analysis),
            decreases list@.len() - d,
        {
            let level: u8 = list[d].priority;
            let shares = match analysis.parent.timer_queue(core) {
                Some(q) => q.priority == level,
                None => false,
            };
            assert(analysis.signals@[core as int].has_level(
                analysis.parent.spec_dispatchers(core as int)[d as int].priority,
            ));
            let signal: u8 = match analysis.signals[core as usize].signal(level) {
                Some(s) => s,
                None => 0,
            };
            let ghost before = items@;
            let rank: u8 = analysis.signals[core as usize].level(level);
            items.push(
                Item::Dispatcher { core, priority: level, level: rank, signal, timer: shares },
            );
            push_arms(&mut items, &list[d], instant);
            if shares {
                push_timed(&mut items, core, app, analysis);
            }
            assert(items@ =~= before + dispatcher(list@[d as int], core, app, analysis));
            d += 1;
            assert(items@ =~= start + dispatchers(d as int, core, app, analysis));
        }
        if list.len() > 0 {
            if let Some(q) = analysis.parent.timer_queue(core) {
                if !analysis.parent.dispatches(core, q.priority) {
                    let signal: u8 = match analysis.signals[core as usize].signal(q.priority) {
                        Some(s) => s,
                        None => 0,
                    };
                    let rank: u8 = analysis.signals[core as usize].level(q.priority);
                    items.push(Item::Timer { core, priority: q.priority, level: rank, signal });
                    push_timed(&mut items, core, app, analysis);
                }
            }
        }
        assert(items@ =~= start + handlers(core, app, analysis));
        core += 1;
    }
    items
}

} // verus!
