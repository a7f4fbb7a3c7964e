//! The resources and the proxies of the shared ones.

use vstd::prelude::*;
use crate::analyze::Analysis;
use crate::ast::App;
use crate::codegen::util::{self, Mutex};
use crate::syntax::{Location, Ownership};

verus! {

/// One entry of the list of what the resources need.
#[derive(Clone, Copy, PartialEq, Eq, Structural, Debug)]
pub enum Item {
    /// The cell of `resource`; a late resource starts uninitialized.
    Static { resource: usize, late: bool },
    /// The proxy of `resource` with its lock; the proxy of a late resource
    /// reaches the cell through a pointer.
    Proxy { resource: usize, late: bool, lock: Mutex },
}

/// The ceiling of the proxy of a used resource: a resource has a proxy where
/// it can be changed and tasks of different priorities share it.
pub open spec fn proxied(loc: Location, app: &App, parent: &crate::syntax::Analysis) -> Option<u8> {
    if app.resources@[loc.resource as int].mutable {
        match parent.spec_ownership(loc.resource as int) {
            Some(Ownership::Shared { ceiling }) => Some(ceiling),
            _ => None,
        }
    } else {
        None
    }
}

/// The lock of a proxy raises the priority to the ceiling of its resource:
/// the highest priority of the contexts that contend for the resource. No
/// context that contends for the resource has a higher priority, and some
/// context has a lower one.
pub proof fn lemma_proxy_ceiling(loc: Location, app: &App, analysis: &Analysis)
    requires
        analysis.fits(app),
        loc.resource < app.resources@.len(),
        proxied(loc, app, &analysis.parent) is Some,
    ensures
        crate::obligations::is_ceiling(
            app,
            loc.resource,
            proxied(loc, app, &analysis.parent)->0,
        ),
{
    assert(crate::obligations::is_ownership(
        app,
        loc.resource,
        analysis.parent.spec_ownership(loc.resource as int),
    ));
}

/// What the used resource `loc` needs.
pub open spec fn resource(loc: Location, app: &App, analysis: &Analysis) -> Seq<Item> {
    let late = app.resources@[loc.resource as int].late;
    seq![Item::Static { resource: loc.resource, late }] + (match proxied(loc, app, &analysis.parent) {
        Some(ceiling) => seq![
            Item::Proxy {
                resource: loc.resource,
                late,
                lock: Mutex {
                    resources_prefix: true,
                    ceiling: analysis.signals@[loc.core->0 as int].spec_level(ceiling) as u8,
                    start: analysis.signals@[loc.core->0 as int].spec_range().start,
                    end: analysis.signals@[loc.core->0 as int].spec_range().end,
                },
            },
        ],
        None => Seq::empty(),
    })
}

/// What the first `n` used resources need.
pub open spec fn spec_codegen(n: int, app: &App, analysis: &Analysis) -> Seq<Item>
    decreases n,
{
    if n <= 0 {
        Seq::empty()
    } else {
        spec_codegen(n - 1, app, analysis) + resource(
            analysis.parent.locations@[n - 1],
            app,
            analysis,
        )
    }
}

/// Whether one of the first `n` used resources has a proxy.
pub open spec fn any_proxy(n: int, app: &App, analysis: &Analysis) -> bool {
    exists|i: int|
        0 <= i < n && proxied(#[trigger] analysis.parent.locations@[i], app, &analysis.parent) is Some
}

/// Creates the cells of the used resources and the proxies of the shared
/// ones, and says whether the module of the proxies is needed: whether there
/// is any proxy.
pub fn codegen(app: &App, analysis: &Analysis) -> (r: (Vec<Item>, bool))
    requires
        analysis.fits(app),
    ensures
        r.0@ == spec_codegen(analysis.parent.locations@.len() as int, app, analysis),
        r.1 == any_proxy(analysis.parent.locations@.len() as int, app, analysis),
{
    let mut items: Vec<Item> = Vec::new();
    let mut any = false;
    let list = &analysis.parent.locations;
    let mut i: usize = 0;
    while i < list.len()
        invariant
            analysis.fits(app),
            *list == analysis.parent.locations,
            i <= list@.len(),
            items@ == spec_codegen(i as int, app, analysis),
            any == any_proxy(i as int, app, analysis),
        decreases list@.len() - i,
    {
        let loc = list[i];
        let ghost before = items@;
        let res = &app.resources[loc.resource];
        items.push(Item::Static { resource: loc.resource, late: res.late });
        assert(analysis.parent.ownerships@.len() == app.resources@.len());
        let mut found = false;
        if res.mutable {
            if let Some(Ownership::Shared { ceiling }) = analysis.parent.ownerships[loc.resource] {
                assert(proxied(list@[i as int], app, &analysis.parent) == Some(ceiling));
                let core: u8 = loc.core.unwrap();
                let signals = &analysis.signals[core as usize];
                assert(signals.wf());
                let lock = util::impl_mutex(true, signals.level(ceiling), signals.range());
                items.push(Item::Proxy { resource: loc.resource, late: res.late, lock });
                found = true;
            }
        }
        assert(found == (proxied(loc, app, &analysis.parent) is Some));
        assert(items@ =~= before + resource(loc, app, analysis));
        if found {
            any = true;
        }
        i += 1;
    }
    (items, any)
}

} // verus!
