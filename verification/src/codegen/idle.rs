//! The `idle` functions.

use vstd::prelude::*;
use crate::analyze::Analysis;
use crate::ast::{App, Context};
use crate::codegen::module::{self, Module};

verus! {

/// One entry of the list of what the `idle` functions need.
#[derive(Clone, Copy, PartialEq, Eq, Structural, Debug)]
pub enum Item {
    /// The resources of the `idle` of `core`.
    Resources { core: u8 },
    /// The locals and the function of the `idle` of `core`.
    Function { core: u8 },
    /// The module of the `idle` of `core`.
    Module { core: u8, module: Module },
}

/// How the bootstrap ends on core 0.
#[derive(Clone, Copy, PartialEq, Eq, Structural, Debug)]
pub enum Call {
    /// The core's `idle` runs at priority 0.
    Idle,
    /// The core waits for signals in a loop.
    Pause,
}

/// What the `idle` of `core` needs: nothing where the core has none.
pub open spec fn idle_items(core: u8, borrows: bool, app: &App) -> Seq<Item> {
    match app.spec_idle(core as int) {
        None => Seq::empty(),
        Some(idle) => (if idle.resources@.len() > 0 {
            seq![Item::Resources { core }]
        } else {
            Seq::empty()
        }) + seq![
            Item::Function { core },
            Item::Module {
                core,
                module: module::spec_codegen(
                    Context::Idle(core),
                    (idle.resources@.len() > 0, borrows),
                    idle.schedule@.len() > 0,
                    idle.spawn@.len() > 0,
                    false,
                    app,
                ),
            },
        ],
    }
}

/// What the `idle` functions of the cores below `n` need.
pub open spec fn spec_codegen(n: int, borrows: Seq<bool>, app: &App) -> Seq<Item>
    decreases n,
{
    if n <= 0 {
        Seq::empty()
    } else {
        spec_codegen(n - 1, borrows, app) + idle_items((n - 1) as u8, borrows[n - 1], app)
    }
}

/// Creates what the `idle` functions need, core by core, and says how the
/// bootstrap ends: with the `idle` of core 0, or with a loop that waits for
/// signals. `borrows` says of each core whether the resources of its `idle`
/// borrow for a lifetime.
pub fn codegen(app: &App, analysis: &Analysis, borrows: &Vec<bool>) -> (r: (Vec<Item>, Call))
    requires
        analysis.fits(app),
        borrows@.len() == app.cores,
    ensures
        r.0@ == spec_codegen(app.cores as int, borrows@, app),
        r.1 == (if app.spec_idle(0) is Some {
            Call::Idle
        } else {
            Call::Pause
        }),
{
    let mut items: Vec<Item> = Vec::new();
    let mut call = Call::Pause;
    let mut core: u8 = 0;
    while core < app.cores
        invariant
            analysis.fits(app),
            borrows@.len() == app.cores,
            core <= app.cores,
            items@ == spec_codegen(core as int, borrows@, app),
            call == (if core > 0 && app.spec_idle(0) is Some {
                Call::Idle
            } else {
                Call::Pause
            }),
        decreases app.cores - core,
    {
        let ghost before = items@;
        if let Some(idle) = app.idle(core) {
            if idle.resources.len() > 0 {
                items.push(Item::Resources { core });
            }
            if core == 0 {
                call = Call::Idle;
            }
            items.push(Item::Function { core });
            let m = module::codegen(
                Context::Idle(core),
                (idle.resources.len() > 0, borrows[core as usize]),
                idle.schedule.len() > 0,
                idle.spawn.len() > 0,
                false,
                app,
            );
            items.push(Item::Module { core, module: m });
        }
        assert(items@ =~= before + idle_items(core, borrows@[core as int], app));
        core += 1;
    }
    (items, call)
}

} // verus!
