//! The bootstrap before `init`: what core 0 does first.

use vstd::prelude::*;
use crate::analyze::Analysis;
use crate::ast::App;

verus! {

/// A cell that the bootstrap declares.
#[derive(Clone, Copy, PartialEq, Eq, Structural, Debug)]
pub enum Static {
    /// The identifier of the process.
    Tgid,
    /// The identifier of the thread of a core.
    Tid(u8),
}

/// Who a timer notifies.
#[derive(Clone, Copy, PartialEq, Eq, Structural, Debug)]
pub enum Notify {
    /// The process: a single-core application.
    Process,
    /// The thread of core 0, which is the process's first thread.
    Main,
    /// The thread that was just started.
    Child,
}

/// A statement of the bootstrap.
#[derive(Clone, Copy, PartialEq, Eq, Structural, Debug)]
pub enum Stmt {
    /// Pin to CPU 0, switch to the real-time policy and block the signals
    /// up to offset `signo_max`.
    InitRuntime { signo_max: Option<u8> },
    /// Start the slots of `task` over at 0.
    ResetIndex { task: usize },
    /// Put the next `capacity` slots into the free queue of (task, sender).
    Fill { task: usize, sender: u8, capacity: u8 },
    /// Record the identifier of the process.
    InitTgid,
    /// Create the timer of `core`, which fires the signal at offset `signo`.
    InitTimer { core: u8, notify: Notify, signo: u8 },
    /// Register the handler of the signal at offset `handler` on the core
    /// that owns the signals `start .. end`. The runtime gets the level of
    /// the handler's priority on the core, from which it derives that signal.
    Register { start: u8, end: u8, level: u8, handler: u8 },
    /// Publish the thread of core 0.
    InitMainTid,
    /// Map a stack and start the thread of `core`.
    Spawn { core: u8 },
    /// Move the new thread to the CPU of `core`.
    SetAffinity { core: u8 },
    /// Publish the new thread's identifier, which lets it run.
    PublishTid { core: u8 },
}

/// Whether the signal at offset `s` dispatches a priority of some core.
pub open spec fn in_use(analysis: &Analysis, s: int) -> bool {
    exists|c: int|
        0 <= c < analysis.signals@.len() && (#[trigger] analysis.signals@[c]).start <= s
            < analysis.signals@[c].start + analysis.signals@[c].priorities@.len()
}

/// Whether `m` is the highest signal offset in use, or `None` where no
/// signal is in use.
pub open spec fn is_signo_max(analysis: &Analysis, m: Option<u8>) -> bool {
    match m {
        Some(max) => in_use(analysis, max as int) && forall|s: int|
            in_use(analysis, s) ==> s <= max,
        None => forall|s: int| !in_use(analysis, s),
    }
}

/// The highest signal offset in use.
pub open spec fn spec_signo_max(analysis: &Analysis) -> Option<u8> {
    choose|m: Option<u8>| is_signo_max(analysis, m)
}

/// The highest signal offset in use.
pub fn signo_max(analysis: &Analysis) -> (m: Option<u8>)
    requires
        analysis.wf(),
    ensures
        is_signo_max(analysis, m),
        m == spec_signo_max(analysis),
{
    let mut m: Option<u8> = None;
    let mut c: usize = 0;
    while c < analysis.signals.len()
        invariant
            analysis.wf(),
            c <= analysis.signals@.len(),
            match m {
                Some(max) => in_use(analysis, max as int) && forall|k: int|
                    0 <= k < c && (#[trigger] analysis.signals@[k]).priorities@.len() > 0
                        ==> analysis.signals@[k].start + analysis.signals@[k].priorities@.len()
                        - 1 <= max,
                None => forall|k: int|
                    0 <= k < c ==> (#[trigger] analysis.signals@[k]).priorities@.len() == 0,
            },
        decreases analysis.signals@.len() - c,
    {
        let s = &analysis.signals[c];
        assert(s.wf());
        if s.priorities.len() > 0 {
            let last: u8 = s.start + (s.priorities.len() - 1) as u8;
            assert(in_use(analysis, last as int)) by {
                assert(analysis.signals@[c as int].start <= last);
            }
            m = match m {
                Some(max) => if last > max {
                    Some(last)
                } else {
                    Some(max)
                },
                None => Some(last),
            };
        }
        c += 1;
    }
    proof {
        lemma_signo_max_unique(analysis, m, spec_signo_max(analysis));
    }
    m
}

/// There is one highest signal offset in use.
pub proof fn lemma_signo_max_unique(analysis: &Analysis, a: Option<u8>, b: Option<u8>)
    requires
        is_signo_max(analysis, a),
    ensures
        is_signo_max(analysis, b) ==> a == b,
        is_signo_max(analysis, spec_signo_max(analysis)),
{
}

/// The statements that fill the free queues of `task`'s first `n` senders.
pub open spec fn fills(task: int, n: int, app: &App, analysis: &Analysis) -> Seq<Stmt> {
    Seq::new(
        n as nat,
        |s: int|
            Stmt::Fill {
                task: task as usize,
                sender: analysis.parent.spec_free_queues(task)[s].sender,
                capacity: app.tasks@[task].capacity,
            },
    )
}

/// The statements that fill the free queues of one task: none where nobody
/// sends the task.
pub open spec fn task_fills(task: int, app: &App, analysis: &Analysis) -> Seq<Stmt> {
    if analysis.parent.spec_free_queues(task).len() == 0 {
        Seq::empty()
    } else {
        seq![Stmt::ResetIndex { task: task as usize }] + fills(
            task,
            analysis.parent.spec_free_queues(task).len() as int,
            app,
            analysis,
        )
    }
}

/// The statements that fill the free queues of the first `n` tasks.
pub open spec fn all_fills(n: int, app: &App, analysis: &Analysis) -> Seq<Stmt>
    decreases n,
{
    if n <= 0 {
        Seq::empty()
    } else {
        all_fills(n - 1, app, analysis) + task_fills(n - 1, app, analysis)
    }
}

/// The registration of the handler of `priority` on `core`.
pub open spec fn register(core: int, priority: u8, analysis: &Analysis) -> Stmt {
    Stmt::Register {
        start: analysis.signals@[core].spec_range().start,
        end: analysis.signals@[core].spec_range().end,
        level: analysis.signals@[core].spec_level(priority) as u8,
        handler: analysis.signals@[core].spec_signal(priority),
    }
}

/// The registrations of the handlers of `core`: its dispatchers by ascending
/// priority, then the timer queue's own handler where it has one.
pub open spec fn registers(core: int, analysis: &Analysis) -> Seq<Stmt> {
    let list = analysis.parent.spec_dispatchers(core);
    Seq::new(list.len(), |d: int| register(core, list[d].priority, analysis)) + (
    if crate::codegen::dispatchers::lone_timer(core as u8, analysis) {
        seq![register(core, analysis.parent.spec_timer_queue(core)->0.priority, analysis)]
    } else {
        Seq::empty()
    })
}

/// The registrations of the handlers of the cores below `n`.
pub open spec fn all_registers(n: int, analysis: &Analysis) -> Seq<Stmt>
    decreases n,
{
    if n <= 0 {
        Seq::empty()
    } else {
        all_registers(n - 1, analysis) + registers(n - 1, analysis)
    }
}

/// The statements that create the timer of `core`, if it has a timer queue.
pub open spec fn timer(core: u8, notify: Notify, analysis: &Analysis) -> Seq<Stmt> {
    match analysis.parent.spec_timer_queue(core as int) {
        Some(q) => seq![
            Stmt::InitTimer {
                core,
                notify,
                signo: analysis.signals@[core as int].spec_signal(q.priority),
            },
        ],
        None => Seq::empty(),
    }
}

/// The statements that start the thread of `core`: none for core 0, which
/// runs the bootstrap.
pub open spec fn start(core: u8, analysis: &Analysis) -> Seq<Stmt> {
    if core == 0 {
        Seq::empty()
    } else {
        seq![Stmt::Spawn { core }] + timer(core, Notify::Child, analysis) + seq![
            Stmt::SetAffinity { core },
            Stmt::PublishTid { core },
        ]
    }
}

/// The statements that start the threads of the first `n` used cores.
pub open spec fn starts(n: int, analysis: &Analysis) -> Seq<Stmt>
    decreases n,
{
    if n <= 0 {
        Seq::empty()
    } else {
        starts(n - 1, analysis) + start(analysis.parent.used_cores@[n - 1], analysis)
    }
}

/// The statements of the bootstrap before `init`.
pub open spec fn spec_stmts(app: &App, analysis: &Analysis) -> Seq<Stmt> {
    seq![Stmt::InitRuntime { signo_max: spec_signo_max(analysis) }] + all_fills(
        app.tasks@.len() as int,
        app,
        analysis,
    ) + seq![Stmt::InitTgid] + timer(
        0,
        if app.cores == 1 {
            Notify::Process
        } else {
            Notify::Main
        },
        analysis,
    ) + all_registers(app.cores as int, analysis) + (if app.cores > 1 {
        seq![Stmt::InitMainTid]
    } else {
        Seq::empty()
    }) + starts(analysis.parent.used_cores@.len() as int, analysis)
}

/// The thread identifiers of the first `n` used cores, core 0 left out.
pub open spec fn tids(n: int, analysis: &Analysis) -> Seq<Static>
    decreases n,
{
    if n <= 0 {
        Seq::empty()
    } else if analysis.parent.used_cores@[n - 1] == 0 {
        tids(n - 1, analysis)
    } else {
        tids(n - 1, analysis).push(Static::Tid(analysis.parent.used_cores@[n - 1]))
    }
}

/// The cells of the bootstrap: the process identifier, the thread of core 0
/// in a multi-core application, and the thread of every other used core.
pub open spec fn spec_statics(app: &App, analysis: &Analysis) -> Seq<Static> {
    seq![Static::Tgid] + (if app.cores > 1 {
        seq![Static::Tid(0)]
    } else {
        Seq::empty()
    }) + tids(analysis.parent.used_cores@.len() as int, analysis)
}

fn push_timer(stmts: &mut Vec<Stmt>, core: u8, notify: Notify, app: &App, analysis: &Analysis)
    requires
        analysis.fits(app),
        core < app.cores,
    ensures
        final(stmts)@ == old(stmts)@ + timer(core, notify, analysis),
{
    if let Some(q) = analysis.parent.timer_queue(core) {
        let signo: u8 = match analysis.signals[core as usize].signal(q.priority) {
            Some(s) => s,
            None => 0,
        };
        stmts.push(Stmt::InitTimer { core, notify, signo });
        assert(stmts@ =~= old(stmts)@ + timer(core, notify, analysis));
    } else {
        assert(stmts@ =~= old(stmts)@ + timer(core, notify, analysis));
    }
}

fn push_fills(stmts: &mut Vec<Stmt>, app: &App, analysis: &Analysis)
    requires
        analysis.fits(app),
    ensures
        final(stmts)@ == old(stmts)@ + all_fills(app.tasks@.len() as int, app, analysis),
{
    let mut t: usize = 0;
    assert(stmts@ =~= old(stmts)@ + all_fills(0, app, analysis));
    while t < app.tasks.len()
        invariant
            analysis.fits(app),
            t <= app.tasks@.len(),
            stmts@ == old(stmts)@ + all_fills(t as int, app, analysis),
        decreases app.tasks@.len() - t,
    {
        let senders = &analysis.parent.free_queues[t];
        assert(senders@ == analysis.parent.spec_free_queues(t as int));
        let ghost before = stmts@;
        if senders.len() > 0 {
            let cap: u8 = app.tasks[t].capacity;
            stmts.push(Stmt::ResetIndex { task: t });
            let mut s: usize = 0;
            while s < senders.len()
                invariant
                    t < app.tasks@.len(),
                    s <= senders@.len(),
                    senders@ == analysis.parent.spec_free_queues(t as int),
                    cap == app.tasks@[t as int].capacity,
                    stmts@ == before + seq![Stmt::ResetIndex { task: t }] + fills(
                        t as int,
                        s as int,
                        app,
                        analysis,
                    ),
                decreases senders@.len() - s,
            {
                stmts.push(Stmt::Fill { task: t, sender: senders[s].sender, capacity: cap });
                s += 1;
                assert(stmts@ =~= before + seq![Stmt::ResetIndex { task: t }] + fills(
                    t as int,
                    s as int,
                    app,
                    analysis,
                ));
            }
        }
        assert(stmts@ =~= before + task_fills(t as int, app, analysis));
        t += 1;
        assert(stmts@ =~= old(stmts)@ + all_fills(t as int, app, analysis));
    }
}

fn push_registers(stmts: &mut Vec<Stmt>, app: &App, analysis: &Analysis)
    requires
        analysis.fits(app),
    ensures
        final(stmts)@ == old(stmts)@ + all_registers(app.cores as int, analysis),
{
    let mut core: u8 = 0;
    assert(stmts@ =~= old(stmts)@ + all_registers(0, analysis));
    while core < app.cores
        invariant
            analysis.fits(app),
            core <= app.cores,
            stmts@ == old(stmts)@ + all_registers(core as int, analysis),
        decreases app.cores - core,
    {
        let list = &analysis.parent.channels[core as usize];
        assert(list@ == analysis.parent.spec_dispatchers(core as int));
        let signals = &analysis.signals[core as usize];
        assert(signals.wf());
        let range = signals.range();
        let ghost before = stmts@;
        let ghost part = Seq::new(
            list@.len(),
            |d: int| register(core as int, list@[d].priority, analysis),
        );
        let mut d: usize = 0;
        while d < list.len()
            invariant
                analysis.fits(app),
                core < app.cores,
                d <= list@.len(),
                list@ == analysis.parent.spec_dispatchers(core as int),
                *signals == analysis.signals@[core as int],
                range == signals.spec_range(),
                part == Seq::new(
                    list@.len(),
                    |d: int| register(core as int, list@[d].priority, analysis),
                ),
                stmts@ == before + part.subrange(0, d as int),
            decreases list@.len() - d,
        {
            let priority: u8 = list[d].priority;
            assert(analysis.signals@[core as int].has_level(
                analysis.parent.spec_dispatchers(core as int)[d as int].priority,
            ));
            let handler: u8 = match signals.signal(priority) {
                Some(s) => s,
                None => 0,
            };
            let level: u8 = signals.level(priority);
            stmts.push(Stmt::Register { start: range.start, end: range.end, level, handler });
            d += 1;
            assert(stmts@ =~= before + part.subrange(0, d as int));
        }
        assert(part.subrange(0, d as int) =~= part);
        if list.len() > 0 {
            if let Some(q) = analysis.parent.timer_queue(core) {
                if !analysis.parent.dispatches(core, q.priority) {
                    let handler: u8 = match signals.signal(q.priority) {
                        Some(s) => s,
                        None => 0,
                    };
                    stmts.push(
                        Stmt::Register {
                            start: range.start,
                            end: range.end,
                            level: signals.level(q.priority),
                            handler,
                        },
                    );
                }
            }
        }
        assert(stmts@ =~= before + registers(core as int, analysis));
        core += 1;
        assert(stmts@ =~= old(stmts)@ + all_registers(core as int, analysis));
    }
}

/// A registration installs the handler of a priority for the signal that the
/// analysis assigned to the priority: the signal that the runtime derives
/// from the statement's range and level is the statement's handler.
pub proof fn lemma_register_installs_handler(core: int, priority: u8, analysis: &Analysis)
    requires
        analysis.wf(),
        0 <= core < analysis.signals@.len(),
        analysis.signals@[core].has_level(priority),
    ensures
        register(core, priority, analysis) matches Stmt::Register { start, end, level, handler }
            && crate::signal::signal_of(core::ops::Range { start, end }, level as int)
            == crate::sys::SIGRTMIN + handler && 1 <= level <= end - start && end <= 32,
{
    crate::analyze::lemma_level_of_used(&analysis.signals@[core], priority);
}

/// Creates the cells and the statements of the bootstrap before `init`.
///
/// Core 0 prepares the runtime, fills every free queue with its share of the
/// slots (the senders of a task get consecutive runs of `capacity` slots),
/// records the process, creates its own timer, registers every handler, and
/// then starts the thread of each other core: stack and thread, the core's
/// timer, the move to the core's CPU, and last the publication of the thread
/// identifier that the new thread waits for.
pub fn codegen(app: &App, analysis: &Analysis) -> (r: (Vec<Static>, Vec<Stmt>))
    requires
        analysis.fits(app),
    ensures
        r.0@ == spec_statics(app, analysis),
        r.1@ == spec_stmts(app, analysis),
{
    let mut statics: Vec<Static> = Vec::new();
    let mut stmts: Vec<Stmt> = Vec::new();
    stmts.push(Stmt::InitRuntime { signo_max: signo_max(analysis) });
    push_fills(&mut stmts, app, analysis);
    statics.push(Static::Tgid);
    stmts.push(Stmt::InitTgid);
    if app.cores >= 1 {
        push_timer(
            &mut stmts,
            0,
            if app.cores == 1 {
                Notify::Process
            } else {
                Notify::Main
            },
            app,
            analysis,
        );
    } else {
        assert(analysis.parent.spec_timer_queue(0) is None);
    }
    push_registers(&mut stmts, app, analysis);
    if app.cores > 1 {
        statics.push(Static::Tid(0));
        stmts.push(Stmt::InitMainTid);
    }
    let ghost statics0 = statics@;
    let ghost stmts0 = stmts@;
    let used = &analysis.parent.used_cores;
    let mut i: usize = 0;
    assert(statics@ =~= statics0 + tids(0, analysis));
    assert(stmts@ =~= stmts0 + starts(0, analysis));
    while i < used.len()
        invariant
            analysis.fits(app),
            i <= used@.len(),
            *used == analysis.parent.used_cores,
            statics@ == statics0 + tids(i as int, analysis),
            stmts@ == stmts0 + starts(i as int, analysis),
        decreases used@.len() - i,
    {
        let core: u8 = used[i];
        let ghost before = stmts@;
        if core != 0 {
            statics.push(Static::Tid(core));
            stmts.push(Stmt::Spawn { core });
            push_timer(&mut stmts, core, Notify::Child, app, analysis);
            stmts.push(Stmt::SetAffinity { core });
            stmts.push(Stmt::PublishTid { core });
        }
        assert(stmts@ =~= before + start(core, analysis));
        i += 1;
        assert(statics@ =~= statics0 + tids(i as int, analysis));
        assert(stmts@ =~= stmts0 + starts(i as int, analysis));
    }
    assert(statics@ =~= spec_statics(app, analysis));
    assert(stmts@ =~= spec_stmts(app, analysis));
    (statics, stmts)
}

} // verus!
