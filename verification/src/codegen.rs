//! The weaver: what the generated program consists of.
//!
//! Each function here decides what one part of the generated program holds
//! and says so in plain values; turning the values into source text is left
//! to the caller.

use vstd::prelude::*;
use crate::analyze::Analysis;
use crate::ast::App;

pub mod util;
pub mod module;
pub mod spawn_body;
pub mod schedule_body;
pub mod timer_body;
pub mod dispatchers;
pub mod pre_init;
pub mod tasks;
pub mod init;
pub mod idle;
pub mod childs;
pub mod post_init;
pub mod spawn;
pub mod schedule;
pub mod resources;
pub mod timer_queue;
pub mod assertions;

verus! {

/// Of each context, whether its resources borrow for a lifetime.
pub struct Borrows {
    /// The `init` functions, by core.
    pub inits: Vec<bool>,
    /// The `idle` functions, by core.
    pub idles: Vec<bool>,
    /// The tasks.
    pub tasks: Vec<bool>,
}

/// A step of the entry point of the generated program.
#[derive(Clone, Copy, PartialEq, Eq, Structural, Debug)]
pub enum Step {
    /// The assertions.
    Assertions,
    /// The statements before `init`.
    PreInit,
    /// The `init` of core 0.
    Init,
    /// The statements after `init`.
    PostInit,
    /// The `idle` of core 0.
    Idle,
    /// A loop that waits for signals.
    Pause,
}

/// The steps of the entry point, which core 0 runs: nothing of the
/// application runs before the runtime is prepared, `init` runs with every
/// signal blocked, and the tasks of core 0 may run only once the statements
/// after `init` have unblocked its signals.
pub open spec fn spec_main(model: &App) -> Seq<Step> {
    seq![Step::Assertions, Step::PreInit] + (if model.spec_init(0) is Some {
        seq![Step::Init]
    } else {
        Seq::empty()
    }) + seq![
        Step::PostInit,
        if model.spec_idle(0) is Some {
            Step::Idle
        } else {
            Step::Pause
        },
    ]
}

/// The generated program.
pub struct Program {
    /// The steps of the entry point.
    pub main: Vec<Step>,
    /// The assertions that types can cross threads.
    pub assertions: Vec<assertions::Assertion>,
    /// The cells of the bootstrap.
    pub statics: Vec<pre_init::Static>,
    /// The statements before `init`.
    pub pre_init: Vec<pre_init::Stmt>,
    /// The entry points of the other cores' threads.
    pub childs: Vec<childs::Stmt>,
    /// What the `init` functions need.
    pub inits: Vec<init::Item>,
    /// Whether the entry point calls the `init` of core 0.
    pub call_init: bool,
    /// The cores that have a barrier.
    pub barriers: Vec<u8>,
    /// The statements after `init`.
    pub post_init: Vec<childs::Stmt>,
    /// What the `idle` functions need.
    pub idles: Vec<idle::Item>,
    /// How the entry point ends.
    pub call_idle: idle::Call,
    /// What the resources need.
    pub resources: Vec<resources::Item>,
    /// Whether the module of the proxies is needed.
    pub mod_resources: bool,
    /// What the tasks need.
    pub tasks: Vec<tasks::Item>,
    /// The signal handlers.
    pub dispatchers: Vec<dispatchers::Item>,
    /// The `spawn` methods.
    pub spawn: Vec<spawn::Item>,
    /// The timer queues.
    pub timer_queues: Vec<timer_queue::Item>,
    /// The `schedule` methods.
    pub schedule: Vec<schedule::Item>,
}

impl Program {
    /// Whether the program is the one of `model` and `analysis`: each part
    /// is what its weaver says.
    pub open spec fn weaves(&self, model: &App, analysis: &Analysis, borrows: &Borrows) -> bool {
        &&& self.main@ == spec_main(model)
        &&& self.assertions@ == assertions::spec_codegen(analysis)
        &&& self.statics@ == pre_init::spec_statics(model, analysis)
        &&& self.pre_init@ == pre_init::spec_stmts(model, analysis)
        &&& self.childs@ == childs::spec_codegen(
            analysis.parent.used_cores@.len() as int,
            model,
            analysis,
        )
        &&& self.inits@ == init::spec_codegen(model.cores as int, borrows.inits@, model, analysis)
        &&& self.call_init == (model.spec_init(0) is Some)
        &&& self.barriers@ == post_init::senders(model.cores as int, analysis)
        &&& self.post_init@ == post_init::spec_stmts(analysis)
        &&& self.idles@ == idle::spec_codegen(model.cores as int, borrows.idles@, model)
        &&& self.call_idle == (if model.spec_idle(0) is Some {
            idle::Call::Idle
        } else {
            idle::Call::Pause
        })
        &&& self.resources@ == resources::spec_codegen(
            analysis.parent.locations@.len() as int,
            model,
            analysis,
        )
        &&& self.mod_resources == resources::any_proxy(
            analysis.parent.locations@.len() as int,
            model,
            analysis,
        )
        &&& self.tasks@ == tasks::spec_codegen(
            model.tasks@.len() as int,
            borrows.tasks@,
            model,
            analysis,
        )
        &&& self.dispatchers@ == dispatchers::spec_codegen(model.cores as int, model, analysis)
        &&& self.spawn@ == spawn::spec_codegen(model, analysis)
        &&& self.timer_queues@ == timer_queue::spec_codegen(model.cores as int, analysis)
        &&& self.schedule@ == schedule::spec_codegen(model, analysis)
    }
}

/// Weaves the program of an analyzed application.
pub fn app(model: &App, analysis: &Analysis, borrows: &Borrows) -> (p: Program)
    requires
        analysis.fits(model),
        model.cores >= 1,
        borrows.inits@.len() == model.cores,
        borrows.idles@.len() == model.cores,
        borrows.tasks@.len() == model.tasks@.len(),
    ensures
        p.weaves(model, analysis, borrows),
{
    let assertion_stmts = assertions::codegen(analysis);
    let (statics, pre_init_stmts) = pre_init::codegen(model, analysis);
    let child_stmts = childs::codegen(model, analysis);
    let (inits, call_init) = init::codegen(model, analysis, &borrows.inits);
    let (barriers, post_init_stmts) = post_init::codegen(model, analysis);
    let (idles, call_idle) = idle::codegen(model, analysis, &borrows.idles);
    let (resource_items, mod_resources) = resources::codegen(model, analysis);
    let task_items = tasks::codegen(model, analysis, &borrows.tasks);
    let handlers = dispatchers::codegen(model, analysis);
    let spawn_items = spawn::codegen(model, analysis);
    let queues = timer_queue::codegen(model, analysis);
    let schedule_items = schedule::codegen(model, analysis);
    let mut main: Vec<Step> = Vec::new();
    main.push(Step::Assertions);
    main.push(Step::PreInit);
    if call_init {
        main.push(Step::Init);
    }
    main.push(Step::PostInit);
    main.push(
        match call_idle {
            idle::Call::Idle => Step::Idle,
            idle::Call::Pause => Step::Pause,
        },
    );
    assert(main@ =~= spec_main(model));
    Program {
        main,
        assertions: assertion_stmts,
        statics,
        pre_init: pre_init_stmts,
        childs: child_stmts,
        inits,
        call_init,
        barriers,
        post_init: post_init_stmts,
        idles,
        call_idle,
        resources: resource_items,
        mod_resources,
        tasks: task_items,
        dispatchers: handlers,
        spawn: spawn_items,
        timer_queues: queues,
        schedule: schedule_items,
    }
}

} // verus!
