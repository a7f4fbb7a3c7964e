//! What an application owes for its resources and messages: the ceiling of
//! each resource, the barriers between the `init` functions, and the messages
//! that cross cores.

use vstd::prelude::*;
use crate::ast::{contains, App, Context};
use crate::syntax::Ownership;

verus! {

/// Whether context `c` accesses resource `r`.
pub open spec fn accesses(app: &App, c: Context, r: usize) -> bool {
    c.declared(app) && c.spec_resources(app).contains(r)
}

/// Whether context `c` contends for resource `r`: it accesses the resource
/// and is not an `init`, which runs before anything can preempt it.
pub open spec fn contends(app: &App, c: Context, r: usize) -> bool {
    accesses(app, c, r) && !(c is Init)
}

/// Whether `ceiling` is the priority ceiling of `r`: the highest priority of
/// the contexts that contend for it, where `idle` counts as priority 0.
pub open spec fn is_ceiling(app: &App, r: usize, ceiling: u8) -> bool {
    &&& exists|c: Context| contends(app, c, r) && c.spec_priority(app) == ceiling
    &&& forall|c: Context| contends(app, c, r) ==> c.spec_priority(app) <= ceiling
}

/// Whether `o` is the ownership of `r`.
///
/// A resource that no context contends for has none. A resource that one
/// context contends for is owned by it. A resource of several contexts of one
/// priority is co-owned at that priority; a resource of contexts of different
/// priorities is shared, with the highest of the priorities as its ceiling.
pub open spec fn is_ownership(app: &App, r: usize, o: Option<Ownership>) -> bool {
    match o {
        None => forall|c: Context| !contends(app, c, r),
        Some(Ownership::Owned { priority }) => exists|c: Context|
            contends(app, c, r) && c.spec_priority(app) == priority && forall|d: Context|
                contends(app, d, r) ==> d == c,
        Some(Ownership::CoOwned { priority }) => {
            &&& exists|c: Context, d: Context| contends(app, c, r) && contends(app, d, r) && c != d
            &&& forall|c: Context| contends(app, c, r) ==> c.spec_priority(app) == priority
        },
        Some(Ownership::Shared { ceiling }) => {
            &&& is_ceiling(app, r, ceiling)
            &&& exists|c: Context| contends(app, c, r) && c.spec_priority(app) < ceiling
        },
    }
}

/// A resource has one ownership.
pub proof fn lemma_ownership_unique(app: &App, r: usize, a: Option<Ownership>, b: Option<Ownership>)
    requires
        is_ownership(app, r, a),
        is_ownership(app, r, b),
    ensures
        a == b,
{
    match a {
        None => {},
        Some(Ownership::Owned { priority }) => {
            let c = choose|c: Context|
                contends(app, c, r) && c.spec_priority(app) == priority && forall|d: Context|
                    contends(app, d, r) ==> d == c;
            match b {
                Some(Ownership::CoOwned { priority: q }) => {
                    let (x, y) = choose|x: Context, y: Context|
                        contends(app, x, r) && contends(app, y, r) && x != y;
                    assert(x == c && y == c);
                },
                Some(Ownership::Shared { ceiling }) => {
                    let x = choose|x: Context| contends(app, x, r) && x.spec_priority(app) == ceiling;
                    let y = choose|y: Context| contends(app, y, r) && y.spec_priority(app) < ceiling;
                    assert(x == c && y == c);
                },
                Some(Ownership::Owned { priority: q }) => {
                    let d = choose|d: Context|
                        contends(app, d, r) && d.spec_priority(app) == q && forall|e: Context|
                            contends(app, e, r) ==> e == d;
                    assert(d == c);
                },
                None => {},
            }
        },
        Some(Ownership::CoOwned { priority }) => {
            let (x, y) = choose|x: Context, y: Context|
                contends(app, x, r) && contends(app, y, r) && x != y;
            match b {
                Some(Ownership::Owned { priority: q }) => {
                    let c = choose|c: Context|
                        contends(app, c, r) && c.spec_priority(app) == q && forall|d: Context|
                            contends(app, d, r) ==> d == c;
                    assert(x == c && y == c);
                },
                Some(Ownership::Shared { ceiling }) => {
                    let u = choose|u: Context| contends(app, u, r) && u.spec_priority(app) == ceiling;
                    let v = choose|v: Context| contends(app, v, r) && v.spec_priority(app) < ceiling;
                },
                Some(Ownership::CoOwned { priority: q }) => {
                    assert(x.spec_priority(app) == priority);
                    assert(x.spec_priority(app) == q);
                },
                None => {},
            }
        },
        Some(Ownership::Shared { ceiling }) => {
            let u = choose|u: Context| contends(app, u, r) && u.spec_priority(app) == ceiling;
            let v = choose|v: Context| contends(app, v, r) && v.spec_priority(app) < ceiling;
            match b {
                Some(Ownership::Owned { priority: q }) => {
                    let c = choose|c: Context|
                        contends(app, c, r) && c.spec_priority(app) == q && forall|d: Context|
                            contends(app, d, r) ==> d == c;
                    assert(u == c && v == c);
                },
                Some(Ownership::CoOwned { priority: q }) => {},
                Some(Ownership::Shared { ceiling: other }) => {
                    let w = choose|w: Context| contends(app, w, r) && w.spec_priority(app) == other;
                    assert(w.spec_priority(app) <= ceiling);
                    assert(u.spec_priority(app) <= other);
                },
                None => {},
            }
        },
    }
}

/// The ownership of resource `r`.
pub fn ownership(app: &App, r: usize) -> (o: Option<Ownership>)
    requires
        app.wf(),
    ensures
        is_ownership(app, r, o),
{
    let ctxs = app.contexts();
    let mut first: Option<Context> = None;
    let mut several = false;
    let mut lo: u8 = 255;
    let mut hi: u8 = 0;
    let mut i: usize = 0;
    while i < ctxs.len()
        invariant
            i <= ctxs@.len(),
            forall|c: Context| ctxs@.contains(c) <==> c.declared(app),
            first is None ==> !several && forall|k: int|
                0 <= k < i ==> !contends(app, #[trigger] ctxs@[k], r),
            first matches Some(f) ==> {
                &&& contends(app, f, r)
                &&& lo <= hi
                &&& forall|k: int|
                    0 <= k < i && contends(app, #[trigger] ctxs@[k], r) ==> {
                        &&& lo <= ctxs@[k].spec_priority(app) <= hi
                        &&& (several || ctxs@[k] == f)
                    }
                &&& exists|c: Context| contends(app, c, r) && c.spec_priority(app) == lo
                &&& exists|c: Context| contends(app, c, r) && c.spec_priority(app) == hi
                &&& several ==> exists|c: Context| contends(app, c, r) && c != f
            },
        decreases ctxs@.len() - i,
    {
        let c = ctxs[i];
        assert(ctxs@.contains(c));
        if !c.is_init() && contains(c.resources(app), r) {
            assert(contends(app, c, r));
            let p: u8 = c.priority(app);
            match first {
                None => {
                    first = Some(c);
                    lo = p;
                    hi = p;
                },
                Some(f) => {
                    if c != f {
                        several = true;
                    }
                    if p < lo {
                        lo = p;
                    }
                    if p > hi {
                        hi = p;
                    }
                },
            }
        }
        i += 1;
    }
    proof {
        assert forall|c: Context| contends(app, c, r) implies (first is Some && lo
            <= c.spec_priority(app) <= hi && (several || Some(c) == first)) by {
            assert(ctxs@.contains(c));
            let k = choose|k: int| 0 <= k < ctxs@.len() && ctxs@[k] == c;
            assert(contends(app, ctxs@[k], r));
        }
    }
    match first {
        None => None,
        Some(f) => {
            if !several {
                Some(Ownership::Owned { priority: hi })
            } else if lo == hi {
                proof {
                    let d = choose|d: Context| contends(app, d, r) && d != f;
                    assert(contends(app, f, r) && contends(app, d, r) && f != d);
                }
                Some(Ownership::CoOwned { priority: hi })
            } else {
                Some(Ownership::Shared { ceiling: hi })
            }
        },
    }
}

/// Whether core `receiver` uses a late resource that the `init` of another
/// core, `sender`, initializes: `receiver` then waits for the barrier of
/// `sender` before its tasks may run.
pub open spec fn spec_waits_for(app: &App, receiver: u8, sender: u8) -> bool {
    &&& receiver != sender
    &&& app.spec_init(sender as int) is Some
    &&& exists|c: Context, r: usize|
        accesses(app, c, r) && c.spec_executor(app) == receiver && app.spec_init(
            sender as int,
        )->0.late@.contains(r)
}

/// Whether core `receiver` waits for the barrier of core `sender`.
pub fn waits_for(app: &App, receiver: u8, sender: u8) -> (w: bool)
    requires
        app.wf(),
    ensures
        w == spec_waits_for(app, receiver, sender),
{
    if receiver == sender {
        return false;
    }
    let init = match app.init(sender) {
        Some(init) => init,
        None => {
            return false;
        },
    };
    let ctxs = app.contexts();
    let mut i: usize = 0;
    while i < ctxs.len()
        invariant
            i <= ctxs@.len(),
            receiver != sender,
            app.spec_init(sender as int) == Some(*init),
            forall|c: Context| ctxs@.contains(c) <==> c.declared(app),
            forall|k: int, r: usize|
                0 <= k < i ==> !(accesses(app, #[trigger] ctxs@[k], r) && ctxs@[k].spec_executor(
                    app,
                ) == receiver && #[trigger] init.late@.contains(r)),
        decreases ctxs@.len() - i,
    {
        let c = ctxs[i];
        assert(ctxs@.contains(c));
        if c.executor(app) == receiver {
            let list = c.resources(app);
            let mut k: usize = 0;
            while k < list.len()
                invariant
                    k <= list@.len(),
                    c.declared(app),
                    c.spec_executor(app) == receiver,
                    receiver != sender,
                    app.spec_init(sender as int) == Some(*init),
                    list@ == c.spec_resources(app),
                    forall|j: int| 0 <= j < k ==> !init.late@.contains(#[trigger] list@[j]),
                decreases list@.len() - k,
            {
                if contains(&init.late, list[k]) {
                    assert(list@.contains(list@[k as int]));
                    assert(accesses(app, c, list@[k as int]));
                    return true;
                }
                k += 1;
            }
            assert forall|r: usize| !(accesses(app, c, r) && init.late@.contains(r)) by {
                if accesses(app, c, r) {
                    let j = choose|j: int| 0 <= j < list@.len() && list@[j] == r;
                    assert(!init.late@.contains(list@[j]));
                }
            }
        }
        i += 1;
    }
    proof {
        assert forall|c: Context, r: usize|
            !(accesses(app, c, r) && c.spec_executor(app) == receiver && init.late@.contains(
                r,
            )) by {
            if accesses(app, c, r) {
                assert(ctxs@.contains(c));
                let k = choose|k: int| 0 <= k < ctxs@.len() && ctxs@[k] == c;
                assert(ctxs@[k] == c);
            }
        }
    }
    false
}

/// Whether a context on another core than the task's own spawns or schedules
/// task `task`: its inputs then cross cores and must be `Send`.
pub open spec fn spec_crosses_cores(app: &App, task: usize) -> bool {
    exists|c: Context|
        c.declared(app) && c.spec_executor(app) != app.tasks@[task as int].core && (
        c.spec_spawn(app).contains(task) || c.spec_schedule(app).contains(task))
}

/// Whether the inputs of task `task` cross cores.
pub fn crosses_cores(app: &App, task: usize) -> (x: bool)
    requires
        app.wf(),
        task < app.tasks@.len(),
    ensures
        x == spec_crosses_cores(app, task),
{
    let home: u8 = app.tasks[task].core;
    let ctxs = app.contexts();
    let mut i: usize = 0;
    while i < ctxs.len()
        invariant
            i <= ctxs@.len(),
            task < app.tasks@.len(),
            home == app.tasks@[task as int].core,
            forall|c: Context| ctxs@.contains(c) <==> c.declared(app),
            forall|k: int|
                0 <= k < i ==> !((#[trigger] ctxs@[k]).spec_executor(app) != home && (
                ctxs@[k].spec_spawn(app).contains(task) || ctxs@[k].spec_schedule(app).contains(
                    task,
                ))),
        decreases ctxs@.len() - i,
    {
        let c = ctxs[i];
        assert(ctxs@.contains(c));
        if c.executor(app) != home && (contains(c.spawn(app), task) || contains(
            c.schedule(app),
            task,
        )) {
            assert(c.declared(app) && c.spec_executor(app) != app.tasks@[task as int].core && (
            c.spec_spawn(app).contains(task) || c.spec_schedule(app).contains(task)));
            return true;
        }
        i += 1;
    }
    proof {
        assert forall|c: Context|
            !(c.declared(app) && c.spec_executor(app) != app.tasks@[task as int].core && (
            c.spec_spawn(app).contains(task) || c.spec_schedule(app).contains(task))) by {
            if c.declared(app) {
                assert(ctxs@.contains(c));
                let k = choose|k: int| 0 <= k < ctxs@.len() && ctxs@[k] == c;
                assert(ctxs@[k] == c);
            }
        }
    }
    false
}

} // verus!
