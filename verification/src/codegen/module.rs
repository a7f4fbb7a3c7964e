//! The module that gives a context its `Context` type.

use vstd::prelude::*;
use crate::ast::{App, Context};

verus! {

/// What a context is, for its documentation.
#[derive(Clone, Copy, PartialEq, Eq, Structural, Debug)]
pub enum Kind {
    /// "Idle loop"
    Idle,
    /// "Initialization function"
    Init,
    /// "Software task"
    SoftwareTask,
}

/// The shape of the `Spawn` or `Schedule` value of a context.
#[derive(Clone, Copy, PartialEq, Eq, Structural, Debug)]
pub enum Proxy {
    /// The context has no such value.
    Absent,
    /// A marker that cannot leave the thread: the value of `init`.
    Marker,
    /// The value borrows the priority cell.
    Priority,
    /// The value borrows the priority cell and holds the instant at which
    /// the task was scheduled to run.
    PriorityInstant,
}

/// The module of a context.
#[derive(Clone, Copy, PartialEq, Eq, Structural, Debug)]
pub struct Module {
    /// What the module documents.
    pub kind: Kind,
    /// Whether `Context` has the field `scheduled`.
    pub scheduled: bool,
    /// Whether `Context` has the field `resources`, and whether the
    /// resources borrow for the lifetime `'a`.
    pub resources: Option<bool>,
    /// The `Schedule` value of the context.
    pub schedule: Proxy,
    /// The `Spawn` value of the context.
    pub spawn: Proxy,
    /// Whether the module names the late resources that `init` returns.
    pub late_resources: bool,
    /// Whether `Context` has the lifetime `'a`.
    pub lifetime: bool,
    /// Whether `Context::new` takes the priority cell.
    pub takes_priority: bool,
    /// Whether `Context::new` takes the instant.
    pub takes_instant: bool,
}

/// The module of context `ctxt`, which has resources (`resources.0`, borrowed
/// for `'a` where `resources.1`), may schedule and spawn as the flags say,
/// and returns late resources where `late_resources`.
///
/// A task on a core that schedules knows when it was scheduled to run and
/// hands that instant on when it spawns. `init` runs before the priority cell
/// exists: its values are markers and its `Context::new` takes nothing.
pub open spec fn spec_codegen(
    ctxt: Context,
    resources: (bool, bool),
    schedule: bool,
    spawn: bool,
    late_resources: bool,
    app: &App,
) -> Module {
    let timed = ctxt is SoftwareTask && app.spec_uses_schedule(ctxt.spec_executor(app));
    let proxy = if ctxt is Init {
        Proxy::Marker
    } else {
        Proxy::Priority
    };
    Module {
        kind: match ctxt {
            Context::Idle(_) => Kind::Idle,
            Context::Init(_) => Kind::Init,
            Context::SoftwareTask(_) => Kind::SoftwareTask,
        },
        scheduled: timed,
        resources: if resources.0 {
            Some(resources.1)
        } else {
            None
        },
        schedule: if schedule {
            proxy
        } else {
            Proxy::Absent
        },
        spawn: if !spawn {
            Proxy::Absent
        } else if timed {
            Proxy::PriorityInstant
        } else {
            proxy
        },
        late_resources,
        lifetime: (resources.0 && resources.1) || ((schedule || spawn) && !(ctxt is Init)),
        takes_priority: !(ctxt is Init),
        takes_instant: timed,
    }
}

/// Decides the module of a context.
pub fn codegen(
    ctxt: Context,
    resources: (bool, bool),
    schedule: bool,
    spawn: bool,
    late_resources: bool,
    app: &App,
) -> (m: Module)
    requires
        ctxt.declared(app),
    ensures
        m == spec_codegen(ctxt, resources, schedule, spawn, late_resources, app),
{
    let core: u8 = ctxt.executor(app);
    let mut needs_instant = false;
    let mut lifetime = false;
    let mut scheduled = false;
    match ctxt {
        Context::Init(_) => {},
        Context::Idle(_) => {},
        Context::SoftwareTask(_) => {
            if app.uses_schedule(core) {
                scheduled = true;
                needs_instant = true;
            }
        },
    }
    let res = if resources.0 {
        if resources.1 {
            lifetime = true;
        }
        Some(resources.1)
    } else {
        None
    };
    let schedule_proxy = if schedule {
        if ctxt.is_init() {
            Proxy::Marker
        } else {
            lifetime = true;
            Proxy::Priority
        }
    } else {
        Proxy::Absent
    };
    let spawn_proxy = if spawn {
        if ctxt.is_init() {
            Proxy::Marker
        } else {
            lifetime = true;
            if ctxt.is_idle() {
                Proxy::Priority
            } else if app.uses_schedule(core) {
                needs_instant = true;
                Proxy::PriorityInstant
            } else {
                Proxy::Priority
            }
        }
    } else {
        Proxy::Absent
    };
    let kind = match ctxt {
        Context::Idle(_) => Kind::Idle,
        Context::Init(_) => Kind::Init,
        Context::SoftwareTask(_) => Kind::SoftwareTask,
    };
    Module {
        kind,
        scheduled,
        resources: res,
        schedule: schedule_proxy,
        spawn: spawn_proxy,
        late_resources,
        lifetime,
        takes_priority: !ctxt.is_init(),
        takes_instant: needs_instant,
    }
}

} // verus!
