//! The entry points of the threads of the cores other than core 0.

use vstd::prelude::*;
use crate::analyze::Analysis;
use crate::ast::App;

verus! {

/// A statement of a child's entry point; `Child` starts the entry point of a
/// core and the statements that follow are its body.
#[derive(Clone, Copy, PartialEq, Eq, Structural, Debug)]
pub enum Stmt {
    /// The entry point of the thread of `core`.
    Child { core: u8 },
    /// Yield the processor until the thread's identifier is published: the
    /// thread has then been moved to its CPU.
    WaitTid { core: u8 },
    /// Call the core's `init`.
    CallInit { core: u8 },
    /// Write the late resource that `init` returned.
    WriteLate { resource: usize },
    /// Release the barrier of core `sender`: its late resources are written.
    ReleaseBarrier { sender: u8 },
    /// Wait for the barrier of core `sender`.
    WaitBarrier { sender: u8 },
    /// Unblock the signals of the core, whose range is `start .. end` and
    /// holds `max` priorities: tasks may run from here on.
    Unmask { start: u8, end: u8, max: u8 },
    /// Run the core's `idle` at priority 0.
    CallIdle { core: u8 },
    /// Wait for signals in a loop.
    Pause,
}

/// The statements that write the late resources of `core`.
pub open spec fn writes(core: u8, analysis: &Analysis) -> Seq<Stmt> {
    analysis.parent.spec_late_resources(core as int).map_values(
        |resource: usize| Stmt::WriteLate { resource },
    )
}

/// The statements that wait for the barriers of `core`.
pub open spec fn waits(core: u8, analysis: &Analysis) -> Seq<Stmt> {
    analysis.parent.spec_barriers(core as int).map_values(
        |sender: u8| Stmt::WaitBarrier { sender },
    )
}

/// The statement that unblocks the signals of `core`.
pub open spec fn unmask(core: u8, analysis: &Analysis) -> Stmt {
    Stmt::Unmask {
        start: analysis.signals@[core as int].spec_range().start,
        end: analysis.signals@[core as int].spec_range().end,
        max: analysis.signals@[core as int].priorities@.len() as u8,
    }
}

/// The release of the barrier of `core`, where some core waits for it: the
/// core that writes late resources releases its own barrier.
pub open spec fn release(core: u8, analysis: &Analysis) -> Seq<Stmt> {
    if crate::codegen::post_init::is_sender(analysis, core) {
        seq![Stmt::ReleaseBarrier { sender: core }]
    } else {
        Seq::empty()
    }
}

/// What a core does before its tasks may run: its `init`, the writes of the
/// late resources that `init` returned, the release of its barrier where a
/// core waits for it, and the waits for the cores whose late resources it
/// reads.
pub open spec fn prologue(core: u8, app: &App, analysis: &Analysis) -> Seq<Stmt> {
    (if app.spec_init(core as int) is Some {
        seq![Stmt::CallInit { core }]
    } else {
        Seq::empty()
    }) + writes(core, analysis) + release(core, analysis) + waits(core, analysis)
}

/// The entry point of the thread of `core`: none for core 0.
pub open spec fn child(core: u8, app: &App, analysis: &Analysis) -> Seq<Stmt> {
    if core == 0 {
        Seq::empty()
    } else {
        seq![Stmt::Child { core }, Stmt::WaitTid { core }] + prologue(core, app, analysis) + seq![
            unmask(core, analysis),
            if app.spec_idle(core as int) is Some {
                Stmt::CallIdle { core }
            } else {
                Stmt::Pause
            },
        ]
    }
}

/// The entry points of the first `n` used cores.
pub open spec fn spec_codegen(n: int, app: &App, analysis: &Analysis) -> Seq<Stmt>
    decreases n,
{
    if n <= 0 {
        Seq::empty()
    } else {
        spec_codegen(n - 1, app, analysis) + child(analysis.parent.used_cores@[n - 1], app, analysis)
    }
}

/// Whether statement `s` stands before position `last` of `body`.
pub open spec fn precedes(body: Seq<Stmt>, s: Stmt, last: int) -> bool {
    exists|i: int| 0 <= i < last && i < body.len() && #[trigger] body[i] == s
}

/// The bootstrap barrier of the cores other than core 0.
///
/// The entry point of such a core unblocks the core's signals once, as its
/// last statement but one. Before that statement, and so before any task of
/// the core can run, stand the wait for the thread's identifier, the call of
/// the core's own `init` where it has one, and a wait for the barrier of
/// every core whose late resources the core reads.
pub proof fn lemma_child_barrier(core: u8, app: &App, analysis: &Analysis)
    requires
        core != 0,
    ensures
        ({
            let body = child(core, app, analysis);
            let last = body.len() - 2;
            &&& last >= 2
            &&& body[1] == (Stmt::WaitTid { core })
            &&& body[last] == unmask(core, analysis)
            &&& forall|i: int| 0 <= i < body.len() && #[trigger] body[i] is Unmask ==> i == last
            &&& app.spec_init(core as int) is Some ==> body[2] == (Stmt::CallInit { core })
            &&& forall|sender: u8|
                analysis.parent.spec_barriers(core as int).contains(sender) ==> #[trigger] precedes(
                    body,
                    Stmt::WaitBarrier { sender },
                    last,
                )
        }),
{
    let body = child(core, app, analysis);
    let head = seq![Stmt::Child { core }, Stmt::WaitTid { core }];
    let init = if app.spec_init(core as int) is Some {
        seq![Stmt::CallInit { core }]
    } else {
        Seq::empty()
    };
    let w = writes(core, analysis);
    let r = release(core, analysis);
    let b = waits(core, analysis);
    let last = body.len() - 2;
    assert(prologue(core, app, analysis) == init + w + r + b);
    assert(body.len() == 2 + init.len() + w.len() + r.len() + b.len() + 2);
    assert forall|i: int| 0 <= i < body.len() && #[trigger] body[i] is Unmask implies i
        == last by {
        if i < 2 {
        } else if i < 2 + init.len() {
            assert(body[i] == init[i - 2]);
        } else if i < 2 + init.len() + w.len() {
            assert(body[i] == w[i - 2 - init.len()]);
        } else if i < 2 + init.len() + w.len() + r.len() {
            assert(body[i] == r[i - 2 - init.len() - w.len()]);
        } else if i < 2 + init.len() + w.len() + r.len() + b.len() {
            assert(body[i] == b[i - 2 - init.len() - w.len() - r.len()]);
        } else if i == last + 1 {
        }
    }
    assert forall|sender: u8|
        analysis.parent.spec_barriers(core as int).contains(sender) implies #[trigger] precedes(
        body,
        Stmt::WaitBarrier { sender },
        last,
    ) by {
        let list = analysis.parent.spec_barriers(core as int);
        let k = choose|k: int| 0 <= k < list.len() && list[k] == sender;
        let i = 2 + init.len() + w.len() + r.len() + k;
        assert(body[i] == b[k]);
    }
    if app.spec_init(core as int) is Some {
        assert(body[2] == init[0]);
    }
}

/// The owner of late resources releases its barrier.
///
/// Where some core waits for core `core`, the entry point of `core` releases
/// the barrier of `core` once: after its `init` and after every write of a
/// late resource, so that a waiting core sees what was written, and before
/// its own waits, so that two cores that wait for each other both get on.
pub proof fn lemma_child_release(core: u8, app: &App, analysis: &Analysis)
    requires
        core != 0,
        crate::codegen::post_init::is_sender(analysis, core),
    ensures
        ({
            let body = child(core, app, analysis);
            let at = 2 + (if app.spec_init(core as int) is Some {
                1int
            } else {
                0int
            }) + writes(core, analysis).len();
            &&& at < body.len() - 2
            &&& body[at] == (Stmt::ReleaseBarrier { sender: core })
            &&& forall|i: int| 0 <= i < body.len() && #[trigger] body[i] is ReleaseBarrier ==> i == at
            &&& forall|i: int| 0 <= i < body.len() && #[trigger] body[i] is CallInit ==> i < at
            &&& forall|i: int| 0 <= i < body.len() && #[trigger] body[i] is WriteLate ==> i < at
            &&& forall|i: int| 0 <= i < body.len() && #[trigger] body[i] is WaitBarrier ==> at < i
            &&& forall|i: int| 0 <= i < body.len() && #[trigger] body[i] is Unmask ==> at < i
        }),
{
    let body = child(core, app, analysis);
    let init = if app.spec_init(core as int) is Some {
        seq![Stmt::CallInit { core }]
    } else {
        Seq::empty()
    };
    let w = writes(core, analysis);
    let r = release(core, analysis);
    let b = waits(core, analysis);
    let at: int = (2 + init.len() + w.len()) as int;
    assert(prologue(core, app, analysis) == init + w + r + b);
    assert(body.len() == 2 + init.len() + w.len() + 1 + b.len() + 2);
    assert(body[at] == r[0]);
    assert forall|i: int| 0 <= i < body.len() implies ((#[trigger] body[i] is ReleaseBarrier
        ==> i == at) && (body[i] is CallInit ==> i < at) && (body[i] is WriteLate ==> i < at) && (
    body[i] is WaitBarrier ==> at < i) && (body[i] is Unmask ==> at < i)) by {
        if i < 2 {
        } else if i < 2 + init.len() {
            assert(body[i] == init[i - 2]);
        } else if i < at {
            assert(body[i] == w[i - 2 - init.len()]);
        } else if i == at {
        } else if i < at + 1 + b.len() {
            assert(body[i] == b[i - at - 1]);
        } else if i == at + 1 + b.len() {
        } else {
        }
    }
}

/// A core waits for every core that initializes a late resource that it
/// uses: the wait stands before the statement that unblocks the core's
/// signals, so that no task of the core runs before the resource is written.
pub proof fn lemma_child_waits_for_initializers(
    core: u8,
    sender: u8,
    app: &App,
    analysis: &Analysis,
)
    requires
        analysis.fits(app),
        0 < core < app.cores,
        crate::obligations::spec_waits_for(app, core, sender),
    ensures
        precedes(
            child(core, app, analysis),
            Stmt::WaitBarrier { sender },
            child(core, app, analysis).len() - 2,
        ),
{
    assert(analysis.parent.spec_barriers(core as int).contains(sender));
    lemma_child_barrier(core, app, analysis);
}

/// Appends the writes of the late resources of `core`.
pub fn push_writes(stmts: &mut Vec<Stmt>, core: u8, app: &App, analysis: &Analysis)
    requires
        analysis.fits(app),
        core < app.cores,
    ensures
        final(stmts)@ == old(stmts)@ + writes(core, analysis),
{
    let list = &analysis.parent.late_resources[core as usize];
    let mut k: usize = 0;
    assert(stmts@ =~= old(stmts)@ + writes(core, analysis).subrange(0, 0));
    while k < list.len()
        invariant
            k <= list@.len(),
            list@ == analysis.parent.spec_late_resources(core as int),
            stmts@ == old(stmts)@ + writes(core, analysis).subrange(0, k as int),
        decreases list@.len() - k,
    {
        stmts.push(Stmt::WriteLate { resource: list[k] });
        k += 1;
        assert(stmts@ =~= old(stmts)@ + writes(core, analysis).subrange(0, k as int));
    }
    assert(writes(core, analysis).subrange(0, k as int) =~= writes(core, analysis));
}

/// Appends the waits for the barriers of `core`.
pub fn push_waits(stmts: &mut Vec<Stmt>, core: u8, app: &App, analysis: &Analysis)
    requires
        analysis.fits(app),
        core < app.cores,
    ensures
        final(stmts)@ == old(stmts)@ + waits(core, analysis),
{
    let list = &analysis.parent.initialization_barriers[core as usize];
    let mut k: usize = 0;
    assert(stmts@ =~= old(stmts)@ + waits(core, analysis).subrange(0, 0));
    while k < list.len()
        invariant
            k <= list@.len(),
            list@ == analysis.parent.spec_barriers(core as int),
            stmts@ == old(stmts)@ + waits(core, analysis).subrange(0, k as int),
        decreases list@.len() - k,
    {
        stmts.push(Stmt::WaitBarrier { sender: list[k] });
        k += 1;
        assert(stmts@ =~= old(stmts)@ + waits(core, analysis).subrange(0, k as int));
    }
    assert(waits(core, analysis).subrange(0, k as int) =~= waits(core, analysis));
}

/// The statement that unblocks the signals of `core`.
pub fn unmask_stmt(core: u8, app: &App, analysis: &Analysis) -> (s: Stmt)
    requires
        analysis.fits(app),
        core < app.cores,
    ensures
        s == unmask(core, analysis),
{
    let signals = &analysis.signals[core as usize];
    assert(signals.wf());
    let range = signals.range();
    Stmt::Unmask { start: range.start, end: range.end, max: signals.priorities.len() as u8 }
}

/// Creates the entry point of the thread of every used core but core 0.
///
/// The thread waits until it has been moved to its CPU, runs its `init`,
/// writes its late resources, releases its barrier where a core waits for
/// it, waits for the barriers of the cores whose late resources it reads,
/// and only then unblocks its signals and enters `idle`.
pub fn codegen(app: &App, analysis: &Analysis) -> (stmts: Vec<Stmt>)
    requires
        analysis.fits(app),
    ensures
        stmts@ == spec_codegen(analysis.parent.used_cores@.len() as int, app, analysis),
{
    let mut stmts: Vec<Stmt> = Vec::new();
    let used = &analysis.parent.used_cores;
    let mut i: usize = 0;
    while i < used.len()
        invariant
            analysis.fits(app),
            *used == analysis.parent.used_cores,
            i <= used@.len(),
            stmts@ == spec_codegen(i as int, app, analysis),
        decreases used@.len() - i,
    {
        let core: u8 = used[i];
        let ghost before = stmts@;
        if core != 0 {
            stmts.push(Stmt::Child { core });
            stmts.push(Stmt::WaitTid { core });
            if app.init(core).is_some() {
                stmts.push(Stmt::CallInit { core });
            }
            push_writes(&mut stmts, core, app, analysis);
            if crate::codegen::post_init::sends(analysis, core) {
                stmts.push(Stmt::ReleaseBarrier { sender: core });
            }
            push_waits(&mut stmts, core, app, analysis);
            stmts.push(unmask_stmt(core, app, analysis));
            if app.idle(core).is_some() {
                stmts.push(Stmt::CallIdle { core });
            } else {
                stmts.push(Stmt::Pause);
            }
        }
        assert(stmts@ =~= before + child(core, app, analysis));
        i += 1;
    }
    stmts
}

} // verus!
