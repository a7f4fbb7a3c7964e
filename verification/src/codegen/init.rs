//! The `init` functions.

use vstd::prelude::*;
use crate::analyze::Analysis;
use crate::ast::{App, Context};
use crate::codegen::module::{self, Module};

verus! {

/// One entry of the list of what the `init` functions need.
#[derive(Clone, Copy, PartialEq, Eq, Structural, Debug)]
pub enum Item {
    /// The resources of the `init` of `core`.
    Resources { core: u8 },
    /// The record of the late resources that the `init` of `core` returns;
    /// its fields follow.
    LateResources { core: u8 },
    /// A field of the record: a late resource.
    Field { core: u8, resource: usize },
    /// The locals and the function of the `init` of `core`, which returns the
    /// record of late resources where `returns`.
    Function { core: u8, returns: bool },
    /// The module of the `init` of `core`.
    Module { core: u8, module: Module },
}

/// The fields of the record of the late resources of `core`.
pub open spec fn fields(core: u8, analysis: &Analysis) -> Seq<Item> {
    analysis.parent.spec_late_resources(core as int).map_values(
        |resource: usize| Item::Field { core, resource },
    )
}

/// What the `init` of `core` needs: nothing where the core has none.
pub open spec fn init_items(core: u8, borrows: bool, app: &App, analysis: &Analysis) -> Seq<Item> {
    match app.spec_init(core as int) {
        None => Seq::empty(),
        Some(init) => {
            let late = analysis.parent.spec_late_resources(core as int).len() > 0;
            (if init.resources@.len() > 0 {
                seq![Item::Resources { core }]
            } else {
                Seq::empty()
            }) + (if late {
                seq![Item::LateResources { core }] + fields(core, analysis)
            } else {
                Seq::empty()
            }) + seq![
                Item::Function { core, returns: late },
                Item::Module {
                    core,
                    module: module::spec_codegen(
                        Context::Init(core),
                        (init.resources@.len() > 0, borrows),
                        init.schedule@.len() > 0,
                        init.spawn@.len() > 0,
                        late,
                        app,
                    ),
                },
            ]
        },
    }
}

/// What the `init` functions of the cores below `n` need.
pub open spec fn spec_codegen(n: int, borrows: Seq<bool>, app: &App, analysis: &Analysis) -> Seq<Item>
    decreases n,
{
    if n <= 0 {
        Seq::empty()
    } else {
        spec_codegen(n - 1, borrows, app, analysis) + init_items(
            (n - 1) as u8,
            borrows[n - 1],
            app,
            analysis,
        )
    }
}

fn push_fields(items: &mut Vec<Item>, core: u8, app: &App, analysis: &Analysis)
    requires
        analysis.fits(app),
        core < app.cores,
    ensures
        final(items)@ == old(items)@ + fields(core, analysis),
{
    let late_list = &analysis.parent.late_resources[core as usize];
    assert(late_list@ == analysis.parent.spec_late_resources(core as int));
    let mut k: usize = 0;
    assert(items@ =~= old(items)@ + fields(core, analysis).subrange(0, 0));
    while k < late_list.len()
        invariant
            k <= late_list@.len(),
            late_list@ == analysis.parent.spec_late_resources(core as int),
            items@ == old(items)@ + fields(core, analysis).subrange(0, k as int),
        decreases late_list@.len() - k,
    {
        items.push(Item::Field { core, resource: late_list[k] });
        k += 1;
        assert(items@ =~= old(items)@ + fields(core, analysis).subrange(0, k as int));
    }
    assert(fields(core, analysis).subrange(0, k as int) =~= fields(core, analysis));
}

fn push_init(items: &mut Vec<Item>, core: u8, borrows: bool, app: &App, analysis: &Analysis)
    requires
        analysis.fits(app),
        core < app.cores,
    ensures
        final(items)@ == old(items)@ + init_items(core, borrows, app, analysis),
{
    if let Some(init) = app.init(core) {
        if init.resources.len() > 0 {
            items.push(Item::Resources { core });
        }
        let late = analysis.parent.late_resources[core as usize].len() > 0;
        if late {
            items.push(Item::LateResources { core });
            push_fields(items, core, app, analysis);
        }
        items.push(Item::Function { core, returns: late });
        let m = module::codegen(
            Context::Init(core),
            (init.resources.len() > 0, borrows),
            init.schedule.len() > 0,
            init.spawn.len() > 0,
            late,
            app,
        );
        items.push(Item::Module { core, module: m });
    }
    assert(items@ =~= old(items)@ + init_items(core, borrows, app, analysis));
}

/// Creates what the `init` functions need, core by core, and says whether
/// the bootstrap calls an `init`: core 0 has one. `borrows` says of each core
/// whether the resources of its `init` borrow for a lifetime.
pub fn codegen(app: &App, analysis: &Analysis, borrows: &Vec<bool>) -> (r: (Vec<Item>, bool))
    requires
        analysis.fits(app),
        borrows@.len() == app.cores,
    ensures
        r.0@ == spec_codegen(app.cores as int, borrows@, app, analysis),
        r.1 == (app.spec_init(0) is Some),
{
    let mut items: Vec<Item> = Vec::new();
    let mut core: u8 = 0;
    while core < app.cores
        invariant
            analysis.fits(app),
            borrows@.len() == app.cores,
            core <= app.cores,
            items@ == spec_codegen(core as int, borrows@, app, analysis),
        decreases app.cores - core,
    {
        push_init(&mut items, core, borrows[core as usize], app, analysis);
        core += 1;
    }
    let call_init = app.init(0).is_some();
    (items, call_init)
}

} // verus!
