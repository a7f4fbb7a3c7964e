//! Validation of an application before it is analyzed.

use vstd::prelude::*;
use crate::analyze::{offset, priorities};
use crate::ast::{contains, App, Context};
use crate::syntax::all_below;
use crate::sys::NSIGNALS;

verus! {

/// Why an application is rejected.
#[derive(Clone, Copy, PartialEq, Eq, Structural, Debug)]
pub enum Error {
    /// The model lacks an `init` or `idle` entry for a core, or holds a task
    /// on a core that the application does not have.
    Malformed,
    /// A context refers to a task or a resource that was not declared.
    Undeclared,
    /// Contexts on different cores access one resource.
    SharedAcrossCores,
    /// An `init` function lists a late resource among its resources.
    LateResourceInInit,
    /// A context schedules a task on a core that has no timer queue.
    ScheduleWithoutTimerQueue,
    /// Two `init` or `idle` functions share a name.
    DuplicateIdentifier,
    /// There are not enough real-time signals to dispatch all tasks.
    NotEnoughSignals,
}

/// Every entry of `list` is below `n`.
pub open spec fn refs_below(list: Seq<usize>, n: nat) -> bool {
    forall|k: int| 0 <= k < list.len() ==> list[k] < n
}

/// Whether context `c` refers only to declared tasks and resources.
pub open spec fn refs_declared(app: &App, c: Context) -> bool {
    &&& refs_below(c.spec_spawn(app), app.tasks@.len())
    &&& refs_below(c.spec_schedule(app), app.tasks@.len())
    &&& refs_below(c.spec_resources(app), app.resources@.len())
}

/// Some context refers to a task or a resource that was not declared.
pub open spec fn undeclared(app: &App) -> bool {
    exists|c: Context| c.declared(app) && !refs_declared(app, c)
}

/// Whether the two lists have an entry in common.
pub open spec fn intersect(a: Seq<usize>, b: Seq<usize>) -> bool {
    exists|x: usize| a.contains(x) && b.contains(x)
}

/// Contexts on different cores access one resource.
pub open spec fn shared_across_cores(app: &App) -> bool {
    exists|a: Context, b: Context|
        a.declared(app) && b.declared(app) && a.spec_executor(app) != b.spec_executor(app)
            && intersect(a.spec_resources(app), b.spec_resources(app))
}

/// Whether context `c` lists a late resource.
pub open spec fn lists_late(app: &App, c: Context) -> bool {
    exists|k: int|
        0 <= k < c.spec_resources(app).len() && (#[trigger] c.spec_resources(app)[k])
            < app.resources@.len() && app.resources@[c.spec_resources(app)[k] as int].late
}

/// An `init` function lists a late resource among its resources.
pub open spec fn late_in_init(app: &App) -> bool {
    exists|c: Context| c.declared(app) && c is Init && lists_late(app, c)
}

/// A context schedules a task on a core that has no timer queue.
pub open spec fn schedule_without_queue(app: &App, parent: &crate::syntax::Analysis) -> bool {
    exists|c: Context|
        c.declared(app) && c.spec_schedule(app).len() > 0 && parent.spec_timer_queue(
            c.spec_executor(app) as int,
        ) is None
}

/// Two `init` or `idle` functions share a name.
pub open spec fn duplicate_identifier(app: &App) -> bool {
    exists|a: Context, b: Context|
        a != b && a.declared(app) && b.declared(app) && !(a is SoftwareTask) && !(b
            is SoftwareTask) && a.spec_ident(app) == b.spec_ident(app)
}

/// What validation says of an application: the first rule that it breaks, in
/// the order of the rules above.
pub open spec fn spec_app(app: &App, parent: &crate::syntax::Analysis) -> Result<(), Error> {
    if !app.wf() {
        Err(Error::Malformed)
    } else if undeclared(app) {
        Err(Error::Undeclared)
    } else if shared_across_cores(app) {
        Err(Error::SharedAcrossCores)
    } else if late_in_init(app) {
        Err(Error::LateResourceInInit)
    } else if schedule_without_queue(app, parent) {
        Err(Error::ScheduleWithoutTimerQueue)
    } else if duplicate_identifier(app) {
        Err(Error::DuplicateIdentifier)
    } else if offset(app, parent, app.cores as nat) > NSIGNALS {
        Err(Error::NotEnoughSignals)
    } else {
        Ok(())
    }
}

fn has_undeclared(app: &App, ctxs: &Vec<Context>) -> (r: bool)
    requires
        forall|c: Context| ctxs@.contains(c) <==> c.declared(app),
    ensures
        r == undeclared(app),
{
    let mut i: usize = 0;
    while i < ctxs.len()
        invariant
            i <= ctxs@.len(),
            forall|c: Context| ctxs@.contains(c) <==> c.declared(app),
            forall|k: int| 0 <= k < i ==> refs_declared(app, #[trigger] ctxs@[k]),
        decreases ctxs@.len() - i,
    {
        let c = ctxs[i];
        assert(ctxs@.contains(c));
        let ok = all_below(c.spawn(app), app.tasks.len()) && all_below(
            c.schedule(app),
            app.tasks.len(),
        ) && all_below(c.resources(app), app.resources.len());
        if !ok {
            assert(c.declared(app) && !refs_declared(app, c));
            return true;
        }
        i += 1;
    }
    proof {
        assert forall|c: Context| c.declared(app) implies refs_declared(app, c) by {
            assert(ctxs@.contains(c));
            let k = choose|k: int| 0 <= k < ctxs@.len() && ctxs@[k] == c;
            assert(refs_declared(app, ctxs@[k]));
        }
    }
    false
}

fn intersects(a: &Vec<usize>, b: &Vec<usize>) -> (r: bool)
    ensures
        r == intersect(a@, b@),
{
    let mut k: usize = 0;
    while k < a.len()
        invariant
            k <= a@.len(),
            forall|j: int| 0 <= j < k ==> !b@.contains(#[trigger] a@[j]),
        decreases a@.len() - k,
    {
        if contains(b, a[k]) {
            assert(a@.contains(a@[k as int]));
            return true;
        }
        k += 1;
    }
    proof {
        assert forall|x: usize| !(a@.contains(x) && b@.contains(x)) by {
            if a@.contains(x) {
                let j = choose|j: int| 0 <= j < a@.len() && a@[j] == x;
                assert(!b@.contains(a@[j]));
            }
        }
    }
    false
}

fn has_shared(app: &App, ctxs: &Vec<Context>) -> (r: bool)
    requires
        forall|c: Context| ctxs@.contains(c) <==> c.declared(app),
    ensures
        r == shared_across_cores(app),
{
    let mut i: usize = 0;
    while i < ctxs.len()
        invariant
            i <= ctxs@.len(),
            forall|c: Context| ctxs@.contains(c) <==> c.declared(app),
            forall|k: int, b: Context|
                0 <= k < i && b.declared(app) ==> !((#[trigger] ctxs@[k]).spec_executor(app)
                    != b.spec_executor(app) && intersect(
                    ctxs@[k].spec_resources(app),
                    #[trigger] b.spec_resources(app),
                )),
        decreases ctxs@.len() - i,
    {
        let a = ctxs[i];
        assert(ctxs@.contains(a));
        let mut j: usize = 0;
        while j < ctxs.len()
            invariant
                i < ctxs@.len(),
                j <= ctxs@.len(),
                a == ctxs@[i as int],
                a.declared(app),
                forall|c: Context| ctxs@.contains(c) <==> c.declared(app),
                forall|k: int|
                    0 <= k < j ==> !(a.spec_executor(app) != (#[trigger] ctxs@[k]).spec_executor(
                        app,
                    ) && intersect(a.spec_resources(app), ctxs@[k].spec_resources(app))),
            decreases ctxs@.len() - j,
        {
            let b = ctxs[j];
            assert(ctxs@.contains(b));
            if a.executor(app) != b.executor(app) && intersects(a.resources(app), b.resources(app)) {
                assert(a.declared(app) && b.declared(app) && a.spec_executor(app)
                    != b.spec_executor(app) && intersect(
                    a.spec_resources(app),
                    b.spec_resources(app),
                ));
                return true;
            }
            j += 1;
        }
        proof {
            assert forall|b: Context| b.declared(app) implies !(a.spec_executor(app)
                != b.spec_executor(app) && intersect(
                a.spec_resources(app),
                #[trigger] b.spec_resources(app),
            )) by {
                assert(ctxs@.contains(b));
                let k = choose|k: int| 0 <= k < ctxs@.len() && ctxs@[k] == b;
                assert(ctxs@[k] == b);
            }
        }
        i += 1;
    }
    proof {
        assert forall|a: Context, b: Context|
            !(a.declared(app) && b.declared(app) && a.spec_executor(app) != b.spec_executor(app)
                && intersect(a.spec_resources(app), b.spec_resources(app))) by {
            if a.declared(app) && b.declared(app) {
                assert(ctxs@.contains(a));
                let k = choose|k: int| 0 <= k < ctxs@.len() && ctxs@[k] == a;
                assert(ctxs@[k] == a);
            }
        }
    }
    false
}

fn has_late_in_init(app: &App, ctxs: &Vec<Context>) -> (r: bool)
    requires
        forall|c: Context| ctxs@.contains(c) <==> c.declared(app),
    ensures
        r == late_in_init(app),
{
    let mut i: usize = 0;
    while i < ctxs.len()
        invariant
            i <= ctxs@.len(),
            forall|c: Context| ctxs@.contains(c) <==> c.declared(app),
            forall|k: int|
                0 <= k < i ==> !((#[trigger] ctxs@[k]) is Init && lists_late(app, ctxs@[k])),
        decreases ctxs@.len() - i,
    {
        let c = ctxs[i];
        assert(ctxs@.contains(c));
        if c.is_init() {
            let list = c.resources(app);
            let mut k: usize = 0;
            while k < list.len()
                invariant
                    k <= list@.len(),
                    list@ == c.spec_resources(app),
                    c.declared(app),
                    c is Init,
                    forall|j: int|
                        0 <= j < k ==> !((#[trigger] list@[j]) < app.resources@.len()
                            && app.resources@[list@[j] as int].late),
                decreases list@.len() - k,
            {
                let r: usize = list[k];
                if r < app.resources.len() && app.resources[r].late {
                    assert(c.declared(app) && c is Init);
                    assert(c.spec_resources(app)[k as int] == r);
                    assert(lists_late(app, c));
                    return true;
                }
                k += 1;
            }
        }
        i += 1;
    }
    proof {
        assert forall|c: Context| !(c.declared(app) && c is Init && lists_late(app, c)) by {
            if c.declared(app) {
                assert(ctxs@.contains(c));
                let k = choose|k: int| 0 <= k < ctxs@.len() && ctxs@[k] == c;
                assert(ctxs@[k] == c);
            }
        }
    }
    false
}

fn has_schedule_without_queue(
    app: &App,
    parent: &crate::syntax::Analysis,
    ctxs: &Vec<Context>,
) -> (r: bool)
    requires
        forall|c: Context| ctxs@.contains(c) <==> c.declared(app),
    ensures
        r == schedule_without_queue(app, parent),
{
    let mut i: usize = 0;
    while i < ctxs.len()
        invariant
            i <= ctxs@.len(),
            forall|c: Context| ctxs@.contains(c) <==> c.declared(app),
            forall|k: int|
                0 <= k < i ==> !((#[trigger] ctxs@[k]).spec_schedule(app).len() > 0
                    && parent.spec_timer_queue(ctxs@[k].spec_executor(app) as int) is None),
        decreases ctxs@.len() - i,
    {
        let c = ctxs[i];
        assert(ctxs@.contains(c));
        if c.schedule(app).len() > 0 && parent.timer_queue(c.executor(app)).is_none() {
            assert(c.declared(app) && c.spec_schedule(app).len() > 0 && parent.spec_timer_queue(
                c.spec_executor(app) as int,
            ) is None);
            return true;
        }
        i += 1;
    }
    proof {
        assert forall|c: Context|
            !(c.declared(app) && c.spec_schedule(app).len() > 0 && parent.spec_timer_queue(
                c.spec_executor(app) as int,
            ) is None) by {
            if c.declared(app) {
                assert(ctxs@.contains(c));
                let k = choose|k: int| 0 <= k < ctxs@.len() && ctxs@[k] == c;
                assert(ctxs@[k] == c);
            }
        }
    }
    false
}

fn has_duplicate(app: &App, ctxs: &Vec<Context>) -> (r: bool)
    requires
        forall|c: Context| ctxs@.contains(c) <==> c.declared(app),
    ensures
        r == duplicate_identifier(app),
{
    let mut i: usize = 0;
    while i < ctxs.len()
        invariant
            i <= ctxs@.len(),
            forall|c: Context| ctxs@.contains(c) <==> c.declared(app),
            forall|k: int, b: Context|
                0 <= k < i && b.declared(app) ==> !((#[trigger] ctxs@[k]) != b && !(ctxs@[k]
                    is SoftwareTask) && !(b is SoftwareTask) && ctxs@[k].spec_ident(app)
                    == #[trigger] b.spec_ident(app)),
        decreases ctxs@.len() - i,
    {
        let a = ctxs[i];
        assert(ctxs@.contains(a));
        let a_task = match a {
            Context::SoftwareTask(_) => true,
            _ => false,
        };
        if !a_task {
            let mut j: usize = 0;
            while j < ctxs.len()
                invariant
                    i < ctxs@.len(),
                    j <= ctxs@.len(),
                    a == ctxs@[i as int],
                    a.declared(app),
                    !(a is SoftwareTask),
                    forall|c: Context| ctxs@.contains(c) <==> c.declared(app),
                    forall|k: int|
                        0 <= k < j ==> !(a != (#[trigger] ctxs@[k]) && !(ctxs@[k] is SoftwareTask)
                            && a.spec_ident(app) == ctxs@[k].spec_ident(app)),
                decreases ctxs@.len() - j,
            {
                let b = ctxs[j];
                assert(ctxs@.contains(b));
                let b_task = match b {
                    Context::SoftwareTask(_) => true,
                    _ => false,
                };
                if !b_task && a != b && *a.ident(app) == *b.ident(app) {
                    assert(a != b && a.declared(app) && b.declared(app) && !(a is SoftwareTask)
                        && !(b is SoftwareTask) && a.spec_ident(app) == b.spec_ident(app));
                    return true;
                }
                j += 1;
            }
            proof {
                assert forall|b: Context| b.declared(app) implies !(a != b && !(a
                    is SoftwareTask) && !(b is SoftwareTask) && a.spec_ident(app)
                    == #[trigger] b.spec_ident(app)) by {
                    assert(ctxs@.contains(b));
                    let k = choose|k: int| 0 <= k < ctxs@.len() && ctxs@[k] == b;
                    assert(ctxs@[k] == b);
                }
            }
        }
        i += 1;
    }
    proof {
        assert forall|a: Context, b: Context|
            !(a != b && a.declared(app) && b.declared(app) && !(a is SoftwareTask) && !(b
                is SoftwareTask) && a.spec_ident(app) == b.spec_ident(app)) by {
            if a.declared(app) && b.declared(app) {
                assert(ctxs@.contains(a));
                let k = choose|k: int| 0 <= k < ctxs@.len() && ctxs@[k] == a;
                assert(ctxs@[k] == a);
            }
        }
    }
    false
}

/// How many signals the application needs, counted up to one more than the
/// kernel has.
fn signals_needed(app: &App, parent: &crate::syntax::Analysis) -> (n: usize)
    ensures
        n <= NSIGNALS ==> n == offset(app, parent, app.cores as nat),
        n > NSIGNALS ==> offset(app, parent, app.cores as nat) > NSIGNALS,
{
    let mut rt: usize = 0;
    let mut core: u8 = 0;
    while core < app.cores
        invariant
            core <= app.cores,
            rt == offset(app, parent, core as nat),
            rt <= NSIGNALS,
        decreases app.cores - core,
    {
        let list = priorities(app, parent, core);
        if rt + list.len() > NSIGNALS {
            proof {
                crate::analyze::lemma_offset_grows(
                    app,
                    parent,
                    (core + 1) as nat,
                    app.cores as nat,
                );
            }
            return rt + list.len();
        }
        rt = rt + list.len();
        core += 1;
    }
    rt
}

/// Validates an application: `Ok` where it breaks no rule, else the first
/// rule that it breaks.
pub fn app(model: &App, analysis: &crate::syntax::Analysis) -> (r: Result<(), Error>)
    ensures
        r == spec_app(model, analysis),
{
    if !model.is_wf() {
        return Err(Error::Malformed);
    }
    let ctxs = model.contexts();
    if has_undeclared(model, &ctxs) {
        return Err(Error::Undeclared);
    }
    if has_shared(model, &ctxs) {
        return Err(Error::SharedAcrossCores);
    }
    if has_late_in_init(model, &ctxs) {
        return Err(Error::LateResourceInInit);
    }
    if has_schedule_without_queue(model, analysis, &ctxs) {
        return Err(Error::ScheduleWithoutTimerQueue);
    }
    if has_duplicate(model, &ctxs) {
        return Err(Error::DuplicateIdentifier);
    }
    if signals_needed(model, analysis) > NSIGNALS {
        return Err(Error::NotEnoughSignals);
    }
    Ok(())
}

} // verus!
