//! The `spawn` methods of the contexts.

use vstd::prelude::*;
use crate::analyze::Analysis;
use crate::ast::{App, Context};
use crate::codegen::spawn_body::{self, SpawnBody};

verus! {

/// Where a `spawn` method takes the instant that it hands on.
#[derive(Clone, Copy, PartialEq, Eq, Structural, Debug)]
pub enum Instant {
    /// The spawned task keeps no instant.
    Absent,
    /// The clock is read.
    Now,
    /// The instant at which the spawning task was scheduled to run.
    Inherited,
}

/// One entry of the list of `spawn` methods.
#[derive(Clone, Copy, PartialEq, Eq, Structural, Debug)]
pub enum Item {
    /// The `Spawn` value of `spawner` gets the methods that follow.
    Impl { spawner: Context, lifetime: bool },
    /// The function that spawns `task` from the contexts of one core other
    /// than `init`; the body names the core.
    Function { task: usize, takes_instant: bool, body: SpawnBody },
    /// The method of `init` that spawns `task`; it holds the body itself.
    Direct { spawner: Context, task: usize, instant: Instant, body: SpawnBody },
    /// The method of `spawner` that spawns `task` by calling the task's
    /// function.
    Method { spawner: Context, task: usize, instant: Instant },
}

/// Whether the function that spawns `task` from the core of the context at
/// position `c` is declared already: a context on that core, other than
/// `init`, spawns `task` among the contexts before `c`, or among the first
/// `k` calls of the context at `c`.
pub open spec fn seen(ctxs: Seq<Context>, c: int, k: int, task: usize, app: &App) -> bool {
    exists|i: int, j: int|
        0 <= i <= c && i < ctxs.len() && 0 <= j < ctxs[i].spec_spawn(app).len() && (i < c || j
            < k) && !(ctxs[i] is Init) && ctxs[i].spec_executor(app) == ctxs[c].spec_executor(
            app,
        ) && #[trigger] ctxs[i].spec_spawn(app)[j] == task
}

/// The entries of the call at position `k` of the context at position `c`.
///
/// `init` holds the body of the call itself and reads the clock where its
/// core schedules. Any other context calls the function that spawns the task
/// from its core, which is declared with the first such call, so that every
/// call site takes its slot from the free queue of its own core. The call
/// hands on an instant where the task's core schedules: `idle` reads the
/// clock, a task hands on its own.
pub open spec fn call(ctxs: Seq<Context>, c: int, k: int, app: &App, analysis: &Analysis) -> Seq<Item> {
    let spawner = ctxs[c];
    let task = spawner.spec_spawn(app)[k];
    let receiver = app.tasks@[task as int].core;
    if spawner is Init {
        seq![
            Item::Direct {
                spawner,
                task,
                instant: if app.spec_uses_schedule(spawner.spec_executor(app)) {
                    Instant::Now
                } else {
                    Instant::Absent
                },
                body: spawn_body::spec_codegen(spawner, task, app, analysis),
            },
        ]
    } else {
        (if seen(ctxs, c, k, task, app) {
            Seq::empty()
        } else {
            seq![
                Item::Function {
                    task,
                    takes_instant: app.spec_uses_schedule(receiver),
                    body: spawn_body::spec_codegen(spawner, task, app, analysis),
                },
            ]
        }) + seq![
            Item::Method {
                spawner,
                task,
                instant: if !app.spec_uses_schedule(receiver) {
                    Instant::Absent
                } else if spawner is Idle {
                    Instant::Now
                } else {
                    Instant::Inherited
                },
            },
        ]
    }
}

/// The entries of the first `k` calls of the context at position `c`.
pub open spec fn calls(ctxs: Seq<Context>, c: int, k: int, app: &App, analysis: &Analysis) -> Seq<Item>
    decreases k,
{
    if k <= 0 {
        Seq::empty()
    } else {
        calls(ctxs, c, k - 1, app, analysis) + call(ctxs, c, k - 1, app, analysis)
    }
}

/// The entries of the context at position `c`: none where it spawns nothing.
pub open spec fn context(ctxs: Seq<Context>, c: int, app: &App, analysis: &Analysis) -> Seq<Item> {
    let spawner = ctxs[c];
    if spawner.spec_spawn(app).len() == 0 {
        Seq::empty()
    } else {
        seq![Item::Impl { spawner, lifetime: !(spawner is Init) }] + calls(
            ctxs,
            c,
            spawner.spec_spawn(app).len() as int,
            app,
            analysis,
        )
    }
}

/// The entries of the first `n` contexts.
pub open spec fn contexts(ctxs: Seq<Context>, n: int, app: &App, analysis: &Analysis) -> Seq<Item>
    decreases n,
{
    if n <= 0 {
        Seq::empty()
    } else {
        contexts(ctxs, n - 1, app, analysis) + context(ctxs, n - 1, app, analysis)
    }
}

/// The `spawn` methods of the application.
pub open spec fn spec_codegen(app: &App, analysis: &Analysis) -> Seq<Item> {
    contexts(app.spec_contexts(), app.spec_contexts().len() as int, app, analysis)
}

fn was_seen(ctxs: &Vec<Context>, c: usize, k: usize, task: usize, app: &App) -> (r: bool)
    requires
        forall|x: Context| ctxs@.contains(x) <==> x.declared(app),
        c < ctxs@.len(),
    ensures
        r == seen(ctxs@, c as int, k as int, task, app),
{
    assert(ctxs@.contains(ctxs@[c as int]));
    let home: u8 = ctxs[c].executor(app);
    let total: usize = ctxs.len();
    let mut i: usize = 0;
    while i <= c
        invariant
            forall|x: Context| ctxs@.contains(x) <==> x.declared(app),
            c < ctxs@.len(),
            total == ctxs@.len(),
            i <= c + 1,
            home == ctxs@[c as int].spec_executor(app),
            forall|a: int, b: int|
                0 <= a < i && 0 <= b < ctxs@[a].spec_spawn(app).len() && (a < c || b < k) && !(
                ctxs@[a] is Init) && ctxs@[a].spec_executor(app) == home
                    ==> #[trigger] ctxs@[a].spec_spawn(app)[b] != task,
        decreases c + 1 - i,
    {
        let x = ctxs[i];
        assert(ctxs@.contains(x));
        if !x.is_init() && x.executor(app) == home {
            let list = x.spawn(app);
            let limit: usize = if i < c || k > list.len() {
                list.len()
            } else {
                k
            };
            let mut j: usize = 0;
            while j < limit
                invariant
                    i <= c,
                    c < ctxs@.len(),
                    x == ctxs@[i as int],
                    list@ == x.spec_spawn(app),
                    limit <= list@.len(),
                    i == c ==> limit <= k,
                    !(x is Init),
                    x.spec_executor(app) == ctxs@[c as int].spec_executor(app),
                    j <= limit,
                    forall|b: int| 0 <= b < j ==> list@[b] != task,
                decreases limit - j,
            {
                if list[j] == task {
                    assert(0 <= i <= c && i < ctxs@.len() && 0 <= j < ctxs@[i as int].spec_spawn(
                        app,
                    ).len() && (i < c || j < k) && !(ctxs@[i as int] is Init) && ctxs@[i as int].spec_executor(
                        app,
                    ) == ctxs@[c as int].spec_executor(app) && ctxs@[i as int].spec_spawn(
                        app,
                    )[j as int] == task);
                    return true;
                }
                j += 1;
            }
        }
        i += 1;
    }
    false
}

fn push_call(
    items: &mut Vec<Item>,
    ctxs: &Vec<Context>,
    c: usize,
    k: usize,
    app: &App,
    analysis: &Analysis,
)
    requires
        analysis.fits(app),
        ctxs@ == app.spec_contexts(),
        forall|x: Context| ctxs@.contains(x) <==> x.declared(app),
        c < ctxs@.len(),
        k < ctxs@[c as int].spec_spawn(app).len(),
    ensures
        final(items)@ == old(items)@ + call(ctxs@, c as int, k as int, app, analysis),
{
    let spawner = ctxs[c];
    assert(ctxs@.contains(spawner));
    assert(crate::check::refs_declared(app, spawner));
    let task: usize = spawner.spawn(app)[k];
    let receiver: u8 = app.tasks[task].core;
    assert(analysis.parent.sendable(app, task, spawner.spec_executor(app))) by {
        assert(spawner.spec_spawn(app)[k as int] == task);
    }
    if spawner.is_init() {
        let body = spawn_body::codegen(spawner, task, app, analysis);
        let instant = if app.uses_schedule(spawner.executor(app)) {
            Instant::Now
        } else {
            Instant::Absent
        };
        items.push(Item::Direct { spawner, task, instant, body });
        assert(items@ =~= old(items)@ + call(ctxs@, c as int, k as int, app, analysis));
    } else {
        let timed = app.uses_schedule(receiver);
        if !was_seen(ctxs, c, k, task, app) {
            let body = spawn_body::codegen(spawner, task, app, analysis);
            items.push(Item::Function { task, takes_instant: timed, body });
        }
        let instant = if !timed {
            Instant::Absent
        } else if spawner.is_idle() {
            Instant::Now
        } else {
            Instant::Inherited
        };
        items.push(Item::Method { spawner, task, instant });
        assert(items@ =~= old(items)@ + call(ctxs@, c as int, k as int, app, analysis));
    }
}

fn push_context(
    items: &mut Vec<Item>,
    ctxs: &Vec<Context>,
    c: usize,
    app: &App,
    analysis: &Analysis,
)
    requires
        analysis.fits(app),
        ctxs@ == app.spec_contexts(),
        forall|x: Context| ctxs@.contains(x) <==> x.declared(app),
        c < ctxs@.len(),
    ensures
        final(items)@ == old(items)@ + context(ctxs@, c as int, app, analysis),
{
    let spawner = ctxs[c];
    assert(ctxs@.contains(spawner));
    let n: usize = spawner.spawn(app).len();
    if n > 0 {
        items.push(Item::Impl { spawner, lifetime: !spawner.is_init() });
    }
    let ghost start = items@;
    let mut k: usize = 0;
    assert(items@ =~= start + calls(ctxs@, c as int, 0, app, analysis));
    while k < n
        invariant
            analysis.fits(app),
            ctxs@ == app.spec_contexts(),
            forall|x: Context| ctxs@.contains(x) <==> x.declared(app),
            c < ctxs@.len(),
            n == ctxs@[c as int].spec_spawn(app).len(),
            k <= n,
            items@ == start + calls(ctxs@, c as int, k as int, app, analysis),
        decreases n - k,
    {
        push_call(items, ctxs, c, k, app, analysis);
        k += 1;
        assert(items@ =~= start + calls(ctxs@, c as int, k as int, app, analysis));
    }
    assert(items@ =~= old(items)@ + context(ctxs@, c as int, app, analysis));
}

/// Creates the `spawn` methods, context by context: the `init` functions,
/// the `idle` functions, then the tasks.
pub fn codegen(app: &App, analysis: &Analysis) -> (items: Vec<Item>)
    requires
        analysis.fits(app),
    ensures
        items@ == spec_codegen(app, analysis),
{
    let ctxs = app.contexts();
    let mut items: Vec<Item> = Vec::new();
    let mut c: usize = 0;
    while c < ctxs.len()
        invariant
            analysis.fits(app),
            ctxs@ == app.spec_contexts(),
            forall|x: Context| ctxs@.contains(x) <==> x.declared(app),
            c <= ctxs@.len(),
            items@ == contexts(ctxs@, c as int, app, analysis),
        decreases ctxs@.len() - c,
    {
        push_context(&mut items, &ctxs, c, app, analysis);
        c += 1;
    }
    items
}

} // verus!
