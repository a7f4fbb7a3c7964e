//! What the front end's analysis hands over, in plain values: who sends to
//! whom, the ceilings, the timer queues, and where resources live.

use vstd::prelude::*;

verus! {

/// The tasks that one core sends to a dispatcher.
#[derive(Clone, Debug)]
pub struct Channel {
    /// The sending core.
    pub sender: u8,
    /// The tasks, by position in the application's task list.
    pub tasks: Vec<usize>,
}

/// The channels that end in the dispatcher of one priority.
#[derive(Clone, Debug)]
pub struct Dispatcher {
    /// The priority that the dispatcher runs at.
    pub priority: u8,
    /// One channel per sending core, by ascending sender.
    pub channels: Vec<Channel>,
}

/// The free queue that one sender of a task takes slots from.
#[derive(Clone, Copy, PartialEq, Eq, Structural, Debug)]
pub struct Free {
    /// The sending core.
    pub sender: u8,
    /// The priority ceiling of the queue; `None` where only `init` sends.
    pub ceiling: Option<u8>,
}

/// The timer queue of a core.
#[derive(Clone, Debug)]
pub struct TimerQueue {
    /// The capacity of the queue.
    pub capacity: u8,
    /// The priority ceiling of the queue.
    pub ceiling: u8,
    /// The priority of the timer queue's handler.
    pub priority: u8,
    /// The tasks that can be scheduled on the queue.
    pub tasks: Vec<usize>,
}

/// Resource ownership.
#[derive(Clone, Copy, PartialEq, Eq, Structural, Debug)]
pub enum Ownership {
    /// Owned by a single task of this priority.
    Owned { priority: u8 },
    /// Owned by several tasks, all of this priority.
    CoOwned { priority: u8 },
    /// Shared by tasks of different priorities, up to this ceiling.
    Shared { ceiling: u8 },
}

impl Ownership {
    /// Whether the resource needs a lock at priority `priority`.
    pub fn needs_lock(&self, priority: u8) -> (r: bool)
        ensures
            r == (*self matches Ownership::Shared { ceiling } && priority < ceiling),
    {
        match *self {
            Ownership::Shared { ceiling } => priority < ceiling,
            _ => false,
        }
    }

    /// The highest priority that accesses the resource.
    pub fn ceiling(&self) -> (c: u8)
        ensures
            c == match *self {
                Ownership::Owned { priority } => priority,
                Ownership::CoOwned { priority } => priority,
                Ownership::Shared { ceiling } => ceiling,
            },
    {
        match *self {
            Ownership::Owned { priority } => priority,
            Ownership::CoOwned { priority } => priority,
            Ownership::Shared { ceiling } => ceiling,
        }
    }
}

/// Where a used resource lives.
#[derive(Clone, Copy, PartialEq, Eq, Structural, Debug)]
pub struct Location {
    /// The resource, by position in the application's resource list.
    pub resource: usize,
    /// The core that owns the resource; `None` where several cores share it.
    pub core: Option<u8>,
}

/// The analysis of an application.
#[derive(Clone, Debug)]
pub struct Analysis {
    /// The cores that run a task, an `init` or an `idle`, ascending.
    pub used_cores: Vec<u8>,
    /// The dispatchers of each core, by receiving core and ascending priority.
    pub channels: Vec<Vec<Dispatcher>>,
    /// The free queues of each task, by task and ascending sender.
    pub free_queues: Vec<Vec<Free>>,
    /// The timer queue of each core, by core.
    pub timer_queues: Vec<Option<TimerQueue>>,
    /// The ownership of each resource, by resource.
    pub ownerships: Vec<Option<Ownership>>,
    /// The resources in use.
    pub locations: Vec<Location>,
    /// The late resources that each core initializes, by core.
    pub late_resources: Vec<Vec<usize>>,
    /// The cores whose `init` each core waits for, by waiting core.
    pub initialization_barriers: Vec<Vec<u8>>,
    /// The types that must be `Send`, by core.
    pub send_types: Vec<Vec<usize>>,
    /// The types that must be `Sync`, by core.
    pub sync_types: Vec<Vec<usize>>,
}

impl Analysis {
    /// The analysis has an entry for each core, task and resource of `app`.
    pub open spec fn sized(&self, app: &crate::ast::App) -> bool {
        &&& self.channels@.len() == app.cores
        &&& self.timer_queues@.len() == app.cores
        &&& self.late_resources@.len() == app.cores
        &&& self.initialization_barriers@.len() == app.cores
        &&& self.free_queues@.len() == app.tasks@.len()
        &&& self.ownerships@.len() == app.resources@.len()
    }

    /// A dispatcher has the priority of a task or of the timer queue of its
    /// core.
    pub open spec fn dispatchers_fit(&self, app: &crate::ast::App) -> bool {
        forall|c: int, d: int|
            0 <= c < self.channels@.len() && 0 <= d < self.channels@[c]@.len()
                ==> crate::analyze::uses(
                app,
                self,
                c as u8,
                (#[trigger] self.channels@[c]@[d]).priority,
            )
    }

    /// The channels name cores and tasks of `app`.
    pub open spec fn channels_fit(&self, app: &crate::ast::App) -> bool {
        forall|c: int, d: int, s: int|
            0 <= c < self.channels@.len() && 0 <= d < self.channels@[c]@.len() && 0 <= s
                < self.channels@[c]@[d].channels@.len() ==> {
                &&& (#[trigger] self.channels@[c]@[d].channels@[s]).sender < app.cores
                &&& crate::check::refs_below(
                    self.channels@[c]@[d].channels@[s].tasks@,
                    app.tasks@.len(),
                )
            }
    }

    /// A used resource is one of `app`, on a core of `app`, and a resource
    /// with a proxy lives on one core.
    pub open spec fn locations_fit(&self, app: &crate::ast::App) -> bool {
        forall|i: int|
            0 <= i < self.locations@.len() ==> {
                &&& (#[trigger] self.locations@[i]).resource < app.resources@.len()
                &&& (self.locations@[i].core matches Some(c) ==> c < app.cores)
                &&& (crate::codegen::resources::proxied(self.locations@[i], app, self) is Some
                    ==> self.locations@[i].core is Some)
            }
    }

    /// The free queues name cores of `app`, and the slots of each task that
    /// is sent can be numbered in a byte.
    pub open spec fn free_queues_fit(&self, app: &crate::ast::App) -> bool {
        &&& forall|t: int, s: int|
            0 <= t < self.free_queues@.len() && 0 <= s < self.free_queues@[t]@.len()
                ==> (#[trigger] self.free_queues@[t]@[s]).sender < app.cores
        &&& forall|t: int|
            0 <= t < app.tasks@.len() && self.spec_free_queues(t).len() > 0 ==> {
                &&& (#[trigger] app.tasks@[t]).capacity <= 128
                &&& app.tasks@[t].capacity * self.spec_free_queues(t).len() <= 255
            }
    }

    /// The timer queues name tasks of `app`.
    pub open spec fn timer_queues_fit(&self, app: &crate::ast::App) -> bool {
        forall|c: int|
            0 <= c < self.timer_queues@.len() && (#[trigger] self.timer_queues@[c]) is Some
                ==> crate::check::refs_below(
                self.timer_queues@[c]->0.tasks@,
                app.tasks@.len(),
            )
    }

    /// The late resources are resources of `app`, and the used cores and the
    /// cores that are waited for are cores of `app`.
    pub open spec fn cores_fit(&self, app: &crate::ast::App) -> bool {
        &&& forall|i: int| 0 <= i < self.used_cores@.len() ==> self.used_cores@[i] < app.cores
        &&& forall|c: int|
            0 <= c < self.late_resources@.len() ==> crate::check::refs_below(
                (#[trigger] self.late_resources@[c])@,
                app.resources@.len(),
            )
        &&& forall|c: int, s: int|
            0 <= c < self.initialization_barriers@.len() && 0 <= s
                < self.initialization_barriers@[c]@.len()
                ==> (#[trigger] self.initialization_barriers@[c]@[s]) < app.cores
    }

    /// Whether core `sender` has what it takes to send task `task`: a free
    /// queue of the task for the core, and a variant of the pair in the
    /// dispatcher of the task, with a tag that fits a byte.
    pub open spec fn sendable(&self, app: &crate::ast::App, task: usize, sender: u8) -> bool {
        &&& exists|q: int|
            0 <= q < self.spec_free_queues(task as int).len() && (#[trigger] self.spec_free_queues(
                task as int,
            )[q]).sender == sender
        &&& crate::codegen::dispatchers::spec_variant(task, sender, app, self) matches Some(tag)
            && tag < 256
    }

    /// Whether task `task` can be scheduled on the timer queue of core
    /// `sender`: the queue lists it at a position that fits a byte.
    pub open spec fn schedulable(&self, task: usize, sender: u8) -> bool {
        self.spec_timer_queue(sender as int) matches Some(q) && (q.tasks@.index_of_first(task)
            matches Some(tag) && tag < 256)
    }

    /// Every call site can do what it says: a context that spawns a task can
    /// send it, a context that schedules a task can schedule it on the timer
    /// queue of its core, and a timer queue can send the tasks that it lists.
    pub open spec fn calls_fit(&self, app: &crate::ast::App) -> bool {
        &&& forall|c: crate::ast::Context, k: int|
            c.declared(app) && 0 <= k < c.spec_spawn(app).len() && (#[trigger] c.spec_spawn(app)[k])
                < app.tasks@.len() ==> self.sendable(app, c.spec_spawn(app)[k], c.spec_executor(app))
        &&& forall|c: crate::ast::Context, k: int|
            c.declared(app) && 0 <= k < c.spec_schedule(app).len() && (#[trigger] c.spec_schedule(
                app,
            )[k]) < app.tasks@.len() ==> self.schedulable(
                c.spec_schedule(app)[k],
                c.spec_executor(app),
            )
        &&& forall|core: int, k: int|
            0 <= core < self.timer_queues@.len() && self.timer_queues@[core] is Some && 0 <= k
                < self.timer_queues@[core]->0.tasks@.len() && (
            #[trigger] self.timer_queues@[core]->0.tasks@[k]) < app.tasks@.len() ==> self.sendable(
                app,
                self.timer_queues@[core]->0.tasks@[k],
                core as u8,
            )
    }

    /// The analysis says what the application owes: each resource has the
    /// ownership that the contexts that contend for it give it, a core waits
    /// for exactly the cores that initialize a late resource that it uses,
    /// and each `init` initializes the late resources of its core.
    pub open spec fn obligations_fit(&self, app: &crate::ast::App) -> bool {
        &&& forall|r: int|
            0 <= r < app.resources@.len() ==> crate::obligations::is_ownership(
                app,
                r as usize,
                #[trigger] self.spec_ownership(r),
            )
        &&& forall|c: int, s: u8|
            0 <= c < app.cores ==> (#[trigger] self.spec_barriers(c).contains(s)
                <==> crate::obligations::spec_waits_for(app, c as u8, s))
        &&& forall|c: int|
            0 <= c < app.cores ==> match #[trigger] app.spec_init(c) {
                Some(init) => init.late@ == self.spec_late_resources(c),
                None => self.spec_late_resources(c).len() == 0,
            }
    }

    /// The analysis is one of `app`: it has an entry for each core, task and
    /// resource and refers to no other, it provides for every call site, and
    /// it says what the application owes.
    pub open spec fn fits(&self, app: &crate::ast::App) -> bool {
        &&& app.wf()
        &&& self.sized(app)
        &&& self.obligations_fit(app)
        &&& self.calls_fit(app)
        &&& self.dispatchers_fit(app)
        &&& self.channels_fit(app)
        &&& self.locations_fit(app)
        &&& self.free_queues_fit(app)
        &&& self.timer_queues_fit(app)
        &&& self.cores_fit(app)
    }

    fn has_fit_dispatchers(&self, app: &crate::ast::App) -> (r: bool)
        requires
            self.sized(app),
        ensures
            r == (self.dispatchers_fit(app) && self.channels_fit(app)),
    {
        let mut c: usize = 0;
        while c < self.channels.len()
            invariant
                self.sized(app),
                c <= self.channels@.len(),
                forall|k: int, d: int|
                    0 <= k < c && 0 <= d < self.channels@[k]@.len() ==> crate::analyze::uses(
                        app,
                        self,
                        k as u8,
                        (#[trigger] self.channels@[k]@[d]).priority,
                    ),
                forall|k: int, d: int, s: int|
                    0 <= k < c && 0 <= d < self.channels@[k]@.len() && 0 <= s
                        < self.channels@[k]@[d].channels@.len() ==> {
                        &&& (#[trigger] self.channels@[k]@[d].channels@[s]).sender < app.cores
                        &&& crate::check::refs_below(
                            self.channels@[k]@[d].channels@[s].tasks@,
                            app.tasks@.len(),
                        )
                    },
            decreases self.channels@.len() - c,
        {
            let list = &self.channels[c];
            let mut d: usize = 0;
            while d < list.len()
                invariant
                    self.sized(app),
                    c < self.channels@.len(),
                    *list == self.channels@[c as int],
                    d <= list@.len(),
                    forall|e: int|
                        0 <= e < d ==> crate::analyze::uses(
                            app,
                            self,
                            c as u8,
                            (#[trigger] list@[e]).priority,
                        ),
                    forall|e: int, s: int|
                        0 <= e < d && 0 <= s < list@[e].channels@.len() ==> {
                            &&& (#[trigger] list@[e].channels@[s]).sender < app.cores
                            &&& crate::check::refs_below(
                                list@[e].channels@[s].tasks@,
                                app.tasks@.len(),
                            )
                        },
                decreases list@.len() - d,
            {
                if !crate::analyze::uses_priority(app, self, c as u8, list[d].priority) {
                    assert(!crate::analyze::uses(
                        app,
                        self,
                        c as u8,
                        self.channels@[c as int]@[d as int].priority,
                    ));
                    return false;
                }
                let chans = &list[d].channels;
                let mut s: usize = 0;
                while s < chans.len()
                    invariant
                        c < self.channels@.len(),
                        *list == self.channels@[c as int],
                        d < list@.len(),
                        *chans == list@[d as int].channels,
                        s <= chans@.len(),
                        forall|x: int|
                            0 <= x < s ==> {
                                &&& (#[trigger] chans@[x]).sender < app.cores
                                &&& crate::check::refs_below(chans@[x].tasks@, app.tasks@.len())
                            },
                    decreases chans@.len() - s,
                {
                    if chans[s].sender >= app.cores || !all_below(&chans[s].tasks, app.tasks.len()) {
                        assert(!({
                            &&& self.channels@[c as int]@[d as int].channels@[s as int].sender
                                < app.cores
                            &&& crate::check::refs_below(
                                self.channels@[c as int]@[d as int].channels@[s as int].tasks@,
                                app.tasks@.len(),
                            )
                        }));
                        return false;
                    }
                    s += 1;
                }
                d += 1;
            }
            c += 1;
        }
        true
    }

    fn has_fit_locations(&self, app: &crate::ast::App) -> (r: bool)
        requires
            self.sized(app),
        ensures
            r == self.locations_fit(app),
    {
        let mut i: usize = 0;
        while i < self.locations.len()
            invariant
                self.sized(app),
                i <= self.locations@.len(),
                forall|k: int|
                    0 <= k < i ==> {
                        &&& (#[trigger] self.locations@[k]).resource < app.resources@.len()
                        &&& (self.locations@[k].core matches Some(c) ==> c < app.cores)
                        &&& (crate::codegen::resources::proxied(self.locations@[k], app, self)
                            is Some ==> self.locations@[k].core is Some)
                    },
            decreases self.locations@.len() - i,
        {
            let loc = self.locations[i];
            if loc.resource >= app.resources.len() {
                return false;
            }
            match loc.core {
                Some(c) => {
                    if c >= app.cores {
                        return false;
                    }
                },
                None => {
                    if app.resources[loc.resource].mutable {
                        if let Some(Ownership::Shared { ceiling }) = self.ownerships[loc.resource] {
                            assert(crate::codegen::resources::proxied(
                                self.locations@[i as int],
                                app,
                                self,
                            ) is Some);
                            return false;
                        }
                    }
                },
            }
            i += 1;
        }
        true
    }

    fn has_fit_free_queues(&self, app: &crate::ast::App) -> (r: bool)
        requires
            self.sized(app),
        ensures
            r == self.free_queues_fit(app),
    {
        let mut t: usize = 0;
        while t < self.free_queues.len()
            invariant
                self.sized(app),
                t <= self.free_queues@.len(),
                forall|k: int, s: int|
                    0 <= k < t && 0 <= s < self.free_queues@[k]@.len()
                        ==> (#[trigger] self.free_queues@[k]@[s]).sender < app.cores,
                forall|k: int|
                    0 <= k < t && self.spec_free_queues(k).len() > 0 ==> {
                        &&& (#[trigger] app.tasks@[k]).capacity <= 128
                        &&& app.tasks@[k].capacity * self.spec_free_queues(k).len() <= 255
                    },
            decreases self.free_queues@.len() - t,
        {
            let list = &self.free_queues[t];
            assert(list@ == self.spec_free_queues(t as int));
            if list.len() > 0 {
                let cap: u8 = app.tasks[t].capacity;
                if cap > 128 {
                    return false;
                }
                if cap > 0 && list.len() > 255 / (cap as usize) {
                    assert(cap * list@.len() > 255) by (nonlinear_arith)
                        requires
                            0 < cap <= 128,
                            list@.len() > 255int / (cap as int),
                    ;
                    return false;
                }
                assert(cap * list@.len() <= 255) by (nonlinear_arith)
                    requires
                        0 <= cap <= 128,
                        cap > 0 ==> list@.len() <= 255int / (cap as int),
                        list@.len() >= 0,
                ;
            }
            let mut s: usize = 0;
            while s < list.len()
                invariant
                    t < self.free_queues@.len(),
                    *list == self.free_queues@[t as int],
                    s <= list@.len(),
                    forall|x: int| 0 <= x < s ==> (#[trigger] list@[x]).sender < app.cores,
                decreases list@.len() - s,
            {
                if list[s].sender >= app.cores {
                    return false;
                }
                s += 1;
            }
            t += 1;
        }
        true
    }

    fn has_fit_timer_queues(&self, app: &crate::ast::App) -> (r: bool)
        ensures
            r == self.timer_queues_fit(app),
    {
        let mut c: usize = 0;
        while c < self.timer_queues.len()
            invariant
                c <= self.timer_queues@.len(),
                forall|k: int|
                    0 <= k < c && (#[trigger] self.timer_queues@[k]) is Some
                        ==> crate::check::refs_below(
                        self.timer_queues@[k]->0.tasks@,
                        app.tasks@.len(),
                    ),
            decreases self.timer_queues@.len() - c,
        {
            if let Some(q) = &self.timer_queues[c] {
                if !all_below(&q.tasks, app.tasks.len()) {
                    return false;
                }
            }
            c += 1;
        }
        true
    }

    fn has_fit_cores(&self, app: &crate::ast::App) -> (r: bool)
        ensures
            r == self.cores_fit(app),
    {
        let mut i: usize = 0;
        while i < self.used_cores.len()
            invariant
                i <= self.used_cores@.len(),
                forall|k: int| 0 <= k < i ==> self.used_cores@[k] < app.cores,
            decreases self.used_cores@.len() - i,
        {
            if self.used_cores[i] >= app.cores {
                return false;
            }
            i += 1;
        }
        let mut c: usize = 0;
        while c < self.late_resources.len()
            invariant
                c <= self.late_resources@.len(),
                forall|k: int|
                    0 <= k < c ==> crate::check::refs_below(
                        (#[trigger] self.late_resources@[k])@,
                        app.resources@.len(),
                    ),
            decreases self.late_resources@.len() - c,
        {
            if !all_below(&self.late_resources[c], app.resources.len()) {
                return false;
            }
            c += 1;
        }
        let mut b: usize = 0;
        while b < self.initialization_barriers.len()
            invariant
                b <= self.initialization_barriers@.len(),
                forall|k: int, s: int|
                    0 <= k < b && 0 <= s < self.initialization_barriers@[k]@.len()
                        ==> (#[trigger] self.initialization_barriers@[k]@[s]) < app.cores,
            decreases self.initialization_barriers@.len() - b,
        {
            let list = &self.initialization_barriers[b];
            let mut s: usize = 0;
            while s < list.len()
                invariant
                    b < self.initialization_barriers@.len(),
                    *list == self.initialization_barriers@[b as int],
                    s <= list@.len(),
                    forall|x: int| 0 <= x < s ==> list@[x] < app.cores,
                decreases list@.len() - s,
            {
                if list[s] >= app.cores {
                    return false;
                }
                s += 1;
            }
            b += 1;
        }
        true
    }

    /// Whether core `sender` has what it takes to send task `task`.
    pub fn can_send(&self, app: &crate::ast::App, task: usize, sender: u8) -> (r: bool)
        requires
            task < app.tasks@.len(),
        ensures
            r == self.sendable(app, task, sender),
    {
        match crate::codegen::dispatchers::variant(task, sender, app, self) {
            Some(tag) => {
                if tag >= 256 {
                    return false;
                }
            },
            None => {
                return false;
            },
        }
        if task >= self.free_queues.len() {
            return false;
        }
        let list = &self.free_queues[task];
        let mut q: usize = 0;
        while q < list.len()
            invariant
                q <= list@.len(),
                list@ == self.spec_free_queues(task as int),
                crate::codegen::dispatchers::spec_variant(task, sender, app, self) is Some,
                crate::codegen::dispatchers::spec_variant(task, sender, app, self)->0 < 256,
                forall|k: int| 0 <= k < q ==> (#[trigger] list@[k]).sender != sender,
            decreases list@.len() - q,
        {
            if list[q].sender == sender {
                return true;
            }
            q += 1;
        }
        false
    }

    /// Whether task `task` can be scheduled on the timer queue of core
    /// `sender`.
    pub fn can_schedule(&self, task: usize, sender: u8) -> (r: bool)
        ensures
            r == self.schedulable(task, sender),
    {
        match self.timer_queue(sender) {
            None => false,
            Some(queue) => match first_index(&queue.tasks, task) {
                Some(tag) => tag < 256,
                None => false,
            },
        }
    }

    fn has_fit_calls(&self, app: &crate::ast::App) -> (r: bool)
        requires
            app.wf(),
            self.sized(app),
        ensures
            r == self.calls_fit(app),
    {
        let ctxs = app.contexts();
        let mut i: usize = 0;
        while i < ctxs.len()
            invariant
                i <= ctxs@.len(),
                forall|c: crate::ast::Context| ctxs@.contains(c) <==> c.declared(app),
                forall|x: int, k: int|
                    0 <= x < i && 0 <= k < ctxs@[x].spec_spawn(app).len() && (
                    #[trigger] ctxs@[x].spec_spawn(app)[k]) < app.tasks@.len() ==> self.sendable(
                        app,
                        ctxs@[x].spec_spawn(app)[k],
                        ctxs@[x].spec_executor(app),
                    ),
                forall|x: int, k: int|
                    0 <= x < i && 0 <= k < ctxs@[x].spec_schedule(app).len() && (
                    #[trigger] ctxs@[x].spec_schedule(app)[k]) < app.tasks@.len()
                        ==> self.schedulable(
                        ctxs@[x].spec_schedule(app)[k],
                        ctxs@[x].spec_executor(app),
                    ),
            decreases ctxs@.len() - i,
        {
            let c = ctxs[i];
            assert(ctxs@.contains(c));
            let core: u8 = c.executor(app);
            let spawn = c.spawn(app);
            let mut k: usize = 0;
            while k < spawn.len()
                invariant
                    k <= spawn@.len(),
                    c.declared(app),
                    spawn@ == c.spec_spawn(app),
                    core == c.spec_executor(app),
                    forall|j: int|
                        0 <= j < k && (#[trigger] spawn@[j]) < app.tasks@.len() ==> self.sendable(
                            app,
                            spawn@[j],
                            core,
                        ),
                decreases spawn@.len() - k,
            {
                let t: usize = spawn[k];
                if t < app.tasks.len() && !self.can_send(app, t, core) {
                    assert(c.spec_spawn(app)[k as int] == t);
                    return false;
                }
                k += 1;
            }
            let schedule = c.schedule(app);
            let mut k: usize = 0;
            while k < schedule.len()
                invariant
                    k <= schedule@.len(),
                    c.declared(app),
                    schedule@ == c.spec_schedule(app),
                    core == c.spec_executor(app),
                    forall|j: int|
                        0 <= j < k && (#[trigger] schedule@[j]) < app.tasks@.len()
                            ==> self.schedulable(schedule@[j], core),
                decreases schedule@.len() - k,
            {
                let t: usize = schedule[k];
                if t < app.tasks.len() && !self.can_schedule(t, core) {
                    assert(c.spec_schedule(app)[k as int] == t);
                    return false;
                }
                k += 1;
            }
            i += 1;
        }
        proof {
            assert forall|c: crate::ast::Context, k: int|
                c.declared(app) && 0 <= k < c.spec_spawn(app).len() && (#[trigger] c.spec_spawn(
                    app,
                )[k]) < app.tasks@.len() implies self.sendable(
                app,
                c.spec_spawn(app)[k],
                c.spec_executor(app),
            ) by {
                assert(ctxs@.contains(c));
                let x = choose|x: int| 0 <= x < ctxs@.len() && ctxs@[x] == c;
                assert(ctxs@[x].spec_spawn(app)[k] < app.tasks@.len());
            }
            assert forall|c: crate::ast::Context, k: int|
                c.declared(app) && 0 <= k < c.spec_schedule(app).len() && (
                #[trigger] c.spec_schedule(app)[k]) < app.tasks@.len() implies self.schedulable(
                c.spec_schedule(app)[k],
                c.spec_executor(app),
            ) by {
                assert(ctxs@.contains(c));
                let x = choose|x: int| 0 <= x < ctxs@.len() && ctxs@[x] == c;
                assert(ctxs@[x].spec_schedule(app)[k] < app.tasks@.len());
            }
        }
        let mut core: usize = 0;
        while core < self.timer_queues.len()
            invariant
                self.sized(app),
                core <= self.timer_queues@.len(),
                forall|x: int, k: int|
                    0 <= x < core && self.timer_queues@[x] is Some && 0 <= k
                        < self.timer_queues@[x]->0.tasks@.len() && (
                    #[trigger] self.timer_queues@[x]->0.tasks@[k]) < app.tasks@.len()
                        ==> self.sendable(app, self.timer_queues@[x]->0.tasks@[k], x as u8),
            decreases self.timer_queues@.len() - core,
        {
            if let Some(queue) = &self.timer_queues[core] {
                let mut k: usize = 0;
                while k < queue.tasks.len()
                    invariant
                        self.sized(app),
                        core < self.timer_queues@.len(),
                        self.timer_queues@[core as int] == Some(*queue),
                        k <= queue.tasks@.len(),
                        forall|j: int|
                            0 <= j < k && (#[trigger] queue.tasks@[j]) < app.tasks@.len()
                                ==> self.sendable(app, queue.tasks@[j], core as u8),
                    decreases queue.tasks@.len() - k,
                {
                    let t: usize = queue.tasks[k];
                    if t < app.tasks.len() && !self.can_send(app, t, core as u8) {
                        assert(self.timer_queues@[core as int]->0.tasks@[k as int] == t);
                        return false;
                    }
                    k += 1;
                }
            }
            core += 1;
        }
        true
    }

    fn has_fit_obligations(&self, app: &crate::ast::App) -> (r: bool)
        requires
            app.wf(),
            self.sized(app),
        ensures
            r == self.obligations_fit(app),
    {
        let mut r: usize = 0;
        while r < app.resources.len()
            invariant
                app.wf(),
                self.sized(app),
                r <= app.resources@.len(),
                forall|k: int|
                    0 <= k < r ==> crate::obligations::is_ownership(
                        app,
                        k as usize,
                        #[trigger] self.spec_ownership(k),
                    ),
            decreases app.resources@.len() - r,
        {
            let owed = crate::obligations::ownership(app, r);
            if !same_ownership(owed, self.ownerships[r]) {
                proof {
                    if crate::obligations::is_ownership(app, r, self.spec_ownership(r as int)) {
                        crate::obligations::lemma_ownership_unique(
                            app,
                            r,
                            owed,
                            self.spec_ownership(r as int),
                        );
                    }
                }
                return false;
            }
            r += 1;
        }
        let mut c: u8 = 0;
        while c < app.cores
            invariant
                app.wf(),
                self.sized(app),
                c <= app.cores,
                forall|k: int, s: u8|
                    0 <= k < c ==> (#[trigger] self.spec_barriers(k).contains(s)
                        <==> crate::obligations::spec_waits_for(app, k as u8, s)),
                forall|k: int|
                    0 <= k < c ==> match #[trigger] app.spec_init(k) {
                        Some(init) => init.late@ == self.spec_late_resources(k),
                        None => self.spec_late_resources(k).len() == 0,
                    },
            decreases app.cores - c,
        {
            let list = &self.initialization_barriers[c as usize];
            assert(list@ == self.spec_barriers(c as int));
            let mut s: u16 = 0;
            while s < 256
                invariant
                    app.wf(),
                    s <= 256,
                    c < app.cores,
                    list@ == self.spec_barriers(c as int),
                    forall|x: u8|
                        x < s ==> (#[trigger] list@.contains(x)
                            <==> crate::obligations::spec_waits_for(app, c, x)),
                decreases 256 - s,
            {
                let sender: u8 = s as u8;
                if crate::obligations::waits_for(app, c, sender) != includes(list, sender) {
                    assert(!(self.spec_barriers(c as int).contains(sender)
                        <==> crate::obligations::spec_waits_for(app, c, sender)));
                    return false;
                }
                s += 1;
            }
            let late = &self.late_resources[c as usize];
            assert(late@ == self.spec_late_resources(c as int));
            let agrees = match app.init(c) {
                Some(init) => same_list(&init.late, late),
                None => late.len() == 0,
            };
            if !agrees {
                return false;
            }
            c += 1;
        }
        true
    }

    /// Whether the analysis is one of `app`.
    pub fn is_fit(&self, app: &crate::ast::App) -> (r: bool)
        ensures
            r == self.fits(app),
    {
        if !app.is_wf() {
            return false;
        }
        let sized = self.channels.len() == app.cores as usize && self.timer_queues.len()
            == app.cores as usize && self.late_resources.len() == app.cores as usize
            && self.initialization_barriers.len() == app.cores as usize && self.free_queues.len()
            == app.tasks.len() && self.ownerships.len() == app.resources.len();
        if !sized {
            return false;
        }
        self.has_fit_obligations(app) && self.has_fit_calls(app) && self.has_fit_dispatchers(app) && self.has_fit_locations(app)
            && self.has_fit_free_queues(app) && self.has_fit_timer_queues(app)
            && self.has_fit_cores(app)
    }

    /// The timer queue of `core`, if it has one.
    pub open spec fn spec_timer_queue(&self, core: int) -> Option<TimerQueue> {
        if 0 <= core < self.timer_queues@.len() {
            self.timer_queues@[core]
        } else {
            None
        }
    }

    /// The timer queue of `core`, if it has one.
    pub fn timer_queue(&self, core: u8) -> (r: Option<&TimerQueue>)
        ensures
            r is Some <==> self.spec_timer_queue(core as int) is Some,
            r matches Some(q) ==> *q == self.spec_timer_queue(core as int)->0,
    {
        if (core as usize) < self.timer_queues.len() {
            self.timer_queues[core as usize].as_ref()
        } else {
            None
        }
    }

    /// The dispatchers of `core`.
    pub open spec fn spec_dispatchers(&self, core: int) -> Seq<Dispatcher> {
        if 0 <= core < self.channels@.len() {
            self.channels@[core]@
        } else {
            Seq::empty()
        }
    }

    /// Whether `core` has a dispatcher of priority `priority`.
    pub open spec fn spec_dispatches(&self, core: int, priority: u8) -> bool {
        exists|d: int|
            0 <= d < self.spec_dispatchers(core).len() && (#[trigger] self.spec_dispatchers(
                core,
            )[d]).priority == priority
    }

    /// Whether `core` has a dispatcher of priority `priority`.
    pub fn dispatches(&self, core: u8, priority: u8) -> (r: bool)
        ensures
            r == self.spec_dispatches(core as int, priority),
    {
        if (core as usize) >= self.channels.len() {
            return false;
        }
        let list = &self.channels[core as usize];
        let mut d: usize = 0;
        while d < list.len()
            invariant
                d <= list@.len(),
                list@ == self.spec_dispatchers(core as int),
                forall|k: int| 0 <= k < d ==> (#[trigger] list@[k]).priority != priority,
            decreases list@.len() - d,
        {
            if list[d].priority == priority {
                return true;
            }
            d += 1;
        }
        false
    }

    /// The free queues of task `task`.
    pub open spec fn spec_free_queues(&self, task: int) -> Seq<Free> {
        if 0 <= task < self.free_queues@.len() {
            self.free_queues@[task]@
        } else {
            Seq::empty()
        }
    }

    /// The ownership of `resource`, if it is in use.
    pub open spec fn spec_ownership(&self, resource: int) -> Option<Ownership> {
        if 0 <= resource < self.ownerships@.len() {
            self.ownerships@[resource]
        } else {
            None
        }
    }

    /// The late resources that `core` initializes.
    pub open spec fn spec_late_resources(&self, core: int) -> Seq<usize> {
        if 0 <= core < self.late_resources@.len() {
            self.late_resources@[core]@
        } else {
            Seq::empty()
        }
    }

    /// The cores whose `init` core `core` waits for.
    pub open spec fn spec_barriers(&self, core: int) -> Seq<u8> {
        if 0 <= core < self.initialization_barriers@.len() {
            self.initialization_barriers@[core]@
        } else {
            Seq::empty()
        }
    }
}

/// Whether the two ownerships are the same.
pub fn same_ownership(a: Option<Ownership>, b: Option<Ownership>) -> (r: bool)
    ensures
        r == (a == b),
{
    match (a, b) {
        (None, None) => true,
        (Some(x), Some(y)) => x == y,
        _ => false,
    }
}

/// Whether `list` holds `x`.
pub fn includes(list: &Vec<u8>, x: u8) -> (r: bool)
    ensures
        r == list@.contains(x),
{
    let mut i: usize = 0;
    while i < list.len()
        invariant
            i <= list@.len(),
            forall|k: int| 0 <= k < i ==> list@[k] != x,
        decreases list@.len() - i,
    {
        if list[i] == x {
            return true;
        }
        i += 1;
    }
    false
}

/// Whether the two lists hold the same entries in the same order.
pub fn same_list(a: &Vec<usize>, b: &Vec<usize>) -> (r: bool)
    ensures
        r == (a@ == b@),
{
    if a.len() != b.len() {
        return false;
    }
    let mut i: usize = 0;
    while i < a.len()
        invariant
            i <= a@.len(),
            a@.len() == b@.len(),
            forall|k: int| 0 <= k < i ==> a@[k] == b@[k],
        decreases a@.len() - i,
    {
        if a[i] != b[i] {
            return false;
        }
        i += 1;
    }
    assert(a@ =~= b@);
    true
}

/// The position at which `x` first occurs in `list`.
pub fn first_index(list: &Vec<usize>, x: usize) -> (r: Option<usize>)
    ensures
        r is Some <==> list@.index_of_first(x) is Some,
        r matches Some(i) ==> list@.index_of_first(x) == Some(i as int),
{
    let mut i: usize = 0;
    while i < list.len()
        invariant
            i <= list@.len(),
            forall|k: int| 0 <= k < i ==> list@[k] != x,
        decreases list@.len() - i,
    {
        if list[i] == x {
            proof {
                list@.index_of_first_ensures(x);
            }
            return Some(i);
        }
        i += 1;
    }
    proof {
        list@.index_of_first_ensures(x);
        assert(!list@.contains(x));
    }
    None
}

/// Every entry of `list` is below `n`.
pub fn all_below(list: &Vec<usize>, n: usize) -> (r: bool)
    ensures
        r == crate::check::refs_below(list@, n as nat),
{
    let mut k: usize = 0;
    while k < list.len()
        invariant
            k <= list@.len(),
            forall|j: int| 0 <= j < k ==> list@[j] < n,
        decreases list@.len() - k,
    {
        if list[k] >= n {
            return false;
        }
        k += 1;
    }
    true
}

} // verus!
