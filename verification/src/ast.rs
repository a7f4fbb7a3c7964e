//! The application model: what a parsed application says, in plain values.
//!
//! Tasks and resources are referred to by their position in `App::tasks` and
//! `App::resources`; executors ("cores") by their number.

use vstd::prelude::*;

verus! {

/// The `init` function of a core.
#[derive(Clone, Debug)]
pub struct Init {
    /// The name of the user function.
    pub name: String,
    /// Resources that the function accesses.
    pub resources: Vec<usize>,
    /// Tasks that the function may spawn.
    pub spawn: Vec<usize>,
    /// Tasks that the function may schedule.
    pub schedule: Vec<usize>,
    /// Late resources that the function initializes.
    pub late: Vec<usize>,
}

/// The `idle` function of a core.
#[derive(Clone, Debug)]
pub struct Idle {
    /// The name of the user function.
    pub name: String,
    /// Resources that the function accesses.
    pub resources: Vec<usize>,
    /// Tasks that the function may spawn.
    pub spawn: Vec<usize>,
    /// Tasks that the function may schedule.
    pub schedule: Vec<usize>,
}

/// A software task.
#[derive(Clone, Debug)]
pub struct Task {
    /// The name of the user function.
    pub name: String,
    /// The core that runs the task.
    pub core: u8,
    /// The task's priority.
    pub priority: u8,
    /// How many instances of the task may be pending at once, per sender.
    pub capacity: u8,
    /// Resources that the task accesses.
    pub resources: Vec<usize>,
    /// Tasks that the task may spawn.
    pub spawn: Vec<usize>,
    /// Tasks that the task may schedule.
    pub schedule: Vec<usize>,
    /// How many inputs the task takes.
    pub inputs: u8,
}

/// A resource.
#[derive(Clone, Debug)]
pub struct Resource {
    /// The resource's name.
    pub name: String,
    /// Whether the resource has no initial value and is written by `init`.
    pub late: bool,
    /// Whether the resource can be changed.
    pub mutable: bool,
}

/// An application.
#[derive(Clone, Debug)]
pub struct App {
    /// The name of the application.
    pub name: String,
    /// How many cores the application runs on.
    pub cores: u8,
    /// The `init` function of each core, by core.
    pub inits: Vec<Option<Init>>,
    /// The `idle` function of each core, by core.
    pub idles: Vec<Option<Idle>>,
    /// The resources.
    pub resources: Vec<Resource>,
    /// The software tasks.
    pub tasks: Vec<Task>,
}

/// Where code runs.
#[derive(Clone, Copy, PartialEq, Eq, Structural, Debug)]
pub enum Context {
    /// The `init` function of a core.
    Init(u8),
    /// The `idle` function of a core.
    Idle(u8),
    /// A software task.
    SoftwareTask(usize),
}

impl App {
    /// The `init` function of `core`, if it has one.
    pub open spec fn spec_init(&self, core: int) -> Option<Init> {
        if 0 <= core < self.inits@.len() {
            self.inits@[core]
        } else {
            None
        }
    }

    /// The `idle` function of `core`, if it has one.
    pub open spec fn spec_idle(&self, core: int) -> Option<Idle> {
        if 0 <= core < self.idles@.len() {
            self.idles@[core]
        } else {
            None
        }
    }

    /// The `init` function of `core`, if it has one.
    pub fn init(&self, core: u8) -> (r: Option<&Init>)
        ensures
            r is Some <==> self.spec_init(core as int) is Some,
            r matches Some(i) ==> *i == self.spec_init(core as int)->0,
    {
        if (core as usize) < self.inits.len() {
            self.inits[core as usize].as_ref()
        } else {
            None
        }
    }

    /// The `idle` function of `core`, if it has one.
    pub fn idle(&self, core: u8) -> (r: Option<&Idle>)
        ensures
            r is Some <==> self.spec_idle(core as int) is Some,
            r matches Some(i) ==> *i == self.spec_idle(core as int)->0,
    {
        if (core as usize) < self.idles.len() {
            self.idles[core as usize].as_ref()
        } else {
            None
        }
    }

    /// Whether some context on `core` schedules a task: its `init`, its
    /// `idle`, or a task that runs on it.
    pub open spec fn spec_uses_schedule(&self, core: u8) -> bool {
        ||| (self.spec_init(core as int) matches Some(i) && i.schedule@.len() > 0)
        ||| (self.spec_idle(core as int) matches Some(i) && i.schedule@.len() > 0)
        ||| exists|t: int|
            0 <= t < self.tasks@.len() && (#[trigger] self.tasks@[t]).core == core
                && self.tasks@[t].schedule@.len() > 0
    }

    /// Whether some context on `core` schedules a task.
    pub fn uses_schedule(&self, core: u8) -> (r: bool)
        ensures
            r == self.spec_uses_schedule(core),
    {
        if let Some(i) = self.init(core) {
            if i.schedule.len() > 0 {
                return true;
            }
        }
        if let Some(i) = self.idle(core) {
            if i.schedule.len() > 0 {
                return true;
            }
        }
        let mut t: usize = 0;
        while t < self.tasks.len()
            invariant
                t <= self.tasks@.len(),
                forall|k: int|
                    0 <= k < t ==> !((#[trigger] self.tasks@[k]).core == core
                        && self.tasks@[k].schedule@.len() > 0),
            decreases self.tasks@.len() - t,
        {
            if self.tasks[t].core == core && self.tasks[t].schedule.len() > 0 {
                return true;
            }
            t += 1;
        }
        false
    }
}

impl Context {
    /// Whether this is an `init` function.
    pub fn is_init(&self) -> (r: bool)
        ensures
            r == (*self is Init),
    {
        match self {
            Context::Init(_) => true,
            _ => false,
        }
    }

    /// Whether this is an `idle` function.
    pub fn is_idle(&self) -> (r: bool)
        ensures
            r == (*self is Idle),
    {
        match self {
            Context::Idle(_) => true,
            _ => false,
        }
    }

    /// Whether the context is declared in `app`.
    pub open spec fn declared(&self, app: &App) -> bool {
        match *self {
            Context::Init(core) => app.spec_init(core as int) is Some,
            Context::Idle(core) => app.spec_idle(core as int) is Some,
            Context::SoftwareTask(t) => t < app.tasks@.len(),
        }
    }

    /// Whether the context is declared in `app`.
    pub fn is_declared(&self, app: &App) -> (r: bool)
        ensures
            r == self.declared(app),
    {
        match *self {
            Context::Init(core) => app.init(core).is_some(),
            Context::Idle(core) => app.idle(core).is_some(),
            Context::SoftwareTask(t) => t < app.tasks.len(),
        }
    }

    /// The core that the context runs on.
    pub open spec fn spec_executor(&self, app: &App) -> u8 {
        match *self {
            Context::Init(core) => core,
            Context::Idle(core) => core,
            Context::SoftwareTask(t) => app.tasks@[t as int].core,
        }
    }

    /// The core that the context runs on.
    pub fn executor(&self, app: &App) -> (core: u8)
        requires
            self.declared(app),
        ensures
            core == self.spec_executor(app),
    {
        match *self {
            Context::Init(core) => core,
            Context::Idle(core) => core,
            Context::SoftwareTask(t) => app.tasks[t].core,
        }
    }

    /// The name of the context's user function.
    pub open spec fn spec_ident(&self, app: &App) -> Seq<char> {
        match *self {
            Context::Init(core) => app.spec_init(core as int)->0.name@,
            Context::Idle(core) => app.spec_idle(core as int)->0.name@,
            Context::SoftwareTask(t) => app.tasks@[t as int].name@,
        }
    }

    /// The name of the context's user function.
    pub fn ident<'a>(&self, app: &'a App) -> (name: &'a String)
        requires
            self.declared(app),
        ensures
            name@ == self.spec_ident(app),
    {
        match *self {
            Context::Init(core) => &app.inits[core as usize].as_ref().unwrap().name,
            Context::Idle(core) => &app.idles[core as usize].as_ref().unwrap().name,
            Context::SoftwareTask(t) => &app.tasks[t].name,
        }
    }
}

impl App {
    /// The model has the shape that a parsed application gives: an `init`
    /// and an `idle` entry for each core, and every task on one of the cores.
    pub open spec fn wf(&self) -> bool {
        &&& self.inits@.len() == self.cores
        &&& self.idles@.len() == self.cores
        &&& forall|t: int| 0 <= t < self.tasks@.len() ==> (#[trigger] self.tasks@[t]).core < self.cores
    }

    /// Whether the model has the shape that a parsed application gives.
    pub fn is_wf(&self) -> (r: bool)
        ensures
            r == self.wf(),
    {
        if self.inits.len() != self.cores as usize || self.idles.len() != self.cores as usize {
            return false;
        }
        let mut t: usize = 0;
        while t < self.tasks.len()
            invariant
                t <= self.tasks@.len(),
                forall|k: int| 0 <= k < t ==> (#[trigger] self.tasks@[k]).core < self.cores,
            decreases self.tasks@.len() - t,
        {
            if self.tasks[t].core >= self.cores {
                return false;
            }
            t += 1;
        }
        true
    }

    /// The `init` contexts of the cores below `n`, by core.
    pub open spec fn init_contexts(&self, n: int) -> Seq<Context>
        decreases n,
    {
        if n <= 0 {
            Seq::empty()
        } else if self.spec_init(n - 1) is Some {
            self.init_contexts(n - 1).push(Context::Init((n - 1) as u8))
        } else {
            self.init_contexts(n - 1)
        }
    }

    /// The `idle` contexts of the cores below `n`, by core.
    pub open spec fn idle_contexts(&self, n: int) -> Seq<Context>
        decreases n,
    {
        if n <= 0 {
            Seq::empty()
        } else if self.spec_idle(n - 1) is Some {
            self.idle_contexts(n - 1).push(Context::Idle((n - 1) as u8))
        } else {
            self.idle_contexts(n - 1)
        }
    }

    /// The contexts of the first `n` tasks.
    pub open spec fn task_contexts(&self, n: int) -> Seq<Context> {
        Seq::new(n as nat, |t: int| Context::SoftwareTask(t as usize))
    }

    /// All contexts of the application: the `init` functions by core, then
    /// the `idle` functions by core, then the tasks.
    pub open spec fn spec_contexts(&self) -> Seq<Context> {
        self.init_contexts(self.cores as int) + self.idle_contexts(self.cores as int)
            + self.task_contexts(self.tasks@.len() as int)
    }

    /// The listed `init` contexts are the declared ones.
    pub proof fn lemma_init_contexts(&self, n: int)
        requires
            0 <= n <= 256,
        ensures
            forall|c: Context|
                self.init_contexts(n).contains(c) <==> (c matches Context::Init(core) && core < n
                    && c.declared(self)),
        decreases n,
    {
        if n > 0 {
            self.lemma_init_contexts(n - 1);
            let prev = self.init_contexts(n - 1);
            let cur = self.init_contexts(n);
            assert forall|c: Context|
                cur.contains(c) <==> (c matches Context::Init(core) && core < n && c.declared(
                    self,
                )) by {
                if cur.contains(c) {
                    let j = choose|j: int| 0 <= j < cur.len() && cur[j] == c;
                    if j < prev.len() {
                        assert(prev[j] == c);
                        assert(prev.contains(c));
                    }
                }
                if c matches Context::Init(core) && core < n && c.declared(self) {
                    if c->Init_0 == n - 1 {
                        assert(cur[cur.len() - 1] == c);
                    } else {
                        assert(prev.contains(c));
                        let j = choose|j: int| 0 <= j < prev.len() && prev[j] == c;
                        assert(cur[j] == c);
                    }
                }
            }
        }
    }

    /// The listed `idle` contexts are the declared ones.
    pub proof fn lemma_idle_contexts(&self, n: int)
        requires
            0 <= n <= 256,
        ensures
            forall|c: Context|
                self.idle_contexts(n).contains(c) <==> (c matches Context::Idle(core) && core < n
                    && c.declared(self)),
        decreases n,
    {
        if n > 0 {
            self.lemma_idle_contexts(n - 1);
            let prev = self.idle_contexts(n - 1);
            let cur = self.idle_contexts(n);
            assert forall|c: Context|
                cur.contains(c) <==> (c matches Context::Idle(core) && core < n && c.declared(
                    self,
                )) by {
                if cur.contains(c) {
                    let j = choose|j: int| 0 <= j < cur.len() && cur[j] == c;
                    if j < prev.len() {
                        assert(prev[j] == c);
                        assert(prev.contains(c));
                    }
                }
                if c matches Context::Idle(core) && core < n && c.declared(self) {
                    if c->Idle_0 == n - 1 {
                        assert(cur[cur.len() - 1] == c);
                    } else {
                        assert(prev.contains(c));
                        let j = choose|j: int| 0 <= j < prev.len() && prev[j] == c;
                        assert(cur[j] == c);
                    }
                }
            }
        }
    }

    /// In a well-formed application the list of contexts holds exactly the
    /// declared contexts.
    pub proof fn lemma_contexts(&self)
        requires
            self.wf(),
        ensures
            forall|c: Context| self.spec_contexts().contains(c) <==> c.declared(self),
    {
        let a = self.init_contexts(self.cores as int);
        let b = self.idle_contexts(self.cores as int);
        let t = self.task_contexts(self.tasks@.len() as int);
        let all = self.spec_contexts();
        self.lemma_init_contexts(self.cores as int);
        self.lemma_idle_contexts(self.cores as int);
        assert forall|c: Context| all.contains(c) <==> c.declared(self) by {
            if all.contains(c) {
                let j = choose|j: int| 0 <= j < all.len() && all[j] == c;
                if j < a.len() {
                    assert(a[j] == c);
                    assert(a.contains(c));
                } else if j < a.len() + b.len() {
                    assert(b[j - a.len()] == c);
                    assert(b.contains(c));
                } else {
                    assert(t[j - a.len() - b.len()] == c);
                }
            }
            if c.declared(self) {
                match c {
                    Context::Init(core) => {
                        assert(a.contains(c));
                        let j = choose|j: int| 0 <= j < a.len() && a[j] == c;
                        assert(all[j] == c);
                    },
                    Context::Idle(core) => {
                        assert(b.contains(c));
                        let j = choose|j: int| 0 <= j < b.len() && b[j] == c;
                        assert(all[a.len() + j] == c);
                    },
                    Context::SoftwareTask(k) => {
                        assert(t[k as int] == c);
                        assert(all[a.len() + b.len() + k] == c);
                    },
                }
            }
        }
    }

    /// All contexts of the application, in the order of `spec_contexts`.
    pub fn contexts(&self) -> (list: Vec<Context>)
        requires
            self.wf(),
        ensures
            list@ == self.spec_contexts(),
            forall|c: Context| list@.contains(c) <==> c.declared(self),
    {
        let mut list: Vec<Context> = Vec::new();
        let mut core: u8 = 0;
        while core < self.cores
            invariant
                self.wf(),
                core <= self.cores,
                list@ == self.init_contexts(core as int),
            decreases self.cores - core,
        {
            if self.inits[core as usize].is_some() {
                list.push(Context::Init(core));
            }
            core += 1;
        }
        core = 0;
        while core < self.cores
            invariant
                self.wf(),
                core <= self.cores,
                list@ == self.init_contexts(self.cores as int) + self.idle_contexts(core as int),
            decreases self.cores - core,
        {
            if self.idles[core as usize].is_some() {
                list.push(Context::Idle(core));
                assert(list@ =~= self.init_contexts(self.cores as int) + self.idle_contexts(
                    core + 1,
                ));
            }
            core += 1;
        }
        let mut t: usize = 0;
        while t < self.tasks.len()
            invariant
                t <= self.tasks@.len(),
                list@ == self.init_contexts(self.cores as int) + self.idle_contexts(
                    self.cores as int,
                ) + self.task_contexts(t as int),
            decreases self.tasks@.len() - t,
        {
            list.push(Context::SoftwareTask(t));
            t += 1;
            assert(list@ =~= self.init_contexts(self.cores as int) + self.idle_contexts(
                self.cores as int,
            ) + self.task_contexts(t as int));
        }
        proof {
            self.lemma_contexts();
        }
        list
    }
}

impl Context {
    /// The resources that the context accesses.
    pub open spec fn spec_resources(&self, app: &App) -> Seq<usize> {
        match *self {
            Context::Init(core) => app.spec_init(core as int)->0.resources@,
            Context::Idle(core) => app.spec_idle(core as int)->0.resources@,
            Context::SoftwareTask(t) => app.tasks@[t as int].resources@,
        }
    }

    /// The tasks that the context may spawn.
    pub open spec fn spec_spawn(&self, app: &App) -> Seq<usize> {
        match *self {
            Context::Init(core) => app.spec_init(core as int)->0.spawn@,
            Context::Idle(core) => app.spec_idle(core as int)->0.spawn@,
            Context::SoftwareTask(t) => app.tasks@[t as int].spawn@,
        }
    }

    /// The tasks that the context may schedule.
    pub open spec fn spec_schedule(&self, app: &App) -> Seq<usize> {
        match *self {
            Context::Init(core) => app.spec_init(core as int)->0.schedule@,
            Context::Idle(core) => app.spec_idle(core as int)->0.schedule@,
            Context::SoftwareTask(t) => app.tasks@[t as int].schedule@,
        }
    }

    /// The priority that the context runs at: that of a task, and 0 for
    /// `init` and `idle`.
    pub open spec fn spec_priority(&self, app: &App) -> u8 {
        match *self {
            Context::Init(_) => 0,
            Context::Idle(_) => 0,
            Context::SoftwareTask(t) => app.tasks@[t as int].priority,
        }
    }

    /// The resources that the context accesses.
    pub fn resources<'a>(&self, app: &'a App) -> (list: &'a Vec<usize>)
        requires
            self.declared(app),
        ensures
            list@ == self.spec_resources(app),
    {
        match *self {
            Context::Init(core) => &app.inits[core as usize].as_ref().unwrap().resources,
            Context::Idle(core) => &app.idles[core as usize].as_ref().unwrap().resources,
            Context::SoftwareTask(t) => &app.tasks[t].resources,
        }
    }

    /// The tasks that the context may spawn.
    pub fn spawn<'a>(&self, app: &'a App) -> (list: &'a Vec<usize>)
        requires
            self.declared(app),
        ensures
            list@ == self.spec_spawn(app),
    {
        match *self {
            Context::Init(core) => &app.inits[core as usize].as_ref().unwrap().spawn,
            Context::Idle(core) => &app.idles[core as usize].as_ref().unwrap().spawn,
            Context::SoftwareTask(t) => &app.tasks[t].spawn,
        }
    }

    /// The tasks that the context may schedule.
    pub fn schedule<'a>(&self, app: &'a App) -> (list: &'a Vec<usize>)
        requires
            self.declared(app),
        ensures
            list@ == self.spec_schedule(app),
    {
        match *self {
            Context::Init(core) => &app.inits[core as usize].as_ref().unwrap().schedule,
            Context::Idle(core) => &app.idles[core as usize].as_ref().unwrap().schedule,
            Context::SoftwareTask(t) => &app.tasks[t].schedule,
        }
    }

    /// The priority that the context runs at.
    pub fn priority(&self, app: &App) -> (p: u8)
        requires
            self.declared(app),
        ensures
            p == self.spec_priority(app),
    {
        match *self {
            Context::Init(_) => 0,
            Context::Idle(_) => 0,
            Context::SoftwareTask(t) => app.tasks[t].priority,
        }
    }
}

/// Whether `list` holds `x`.
pub fn contains(list: &Vec<usize>, x: usize) -> (r: bool)
    ensures
        r == list@.contains(x),
{
    let mut i: usize = 0;
    while i < list.len()
        invariant
            i <= list@.len(),
            forall|k: int| 0 <= k < i ==> list@[k] != x,
        decreases list@.len() - i,
    {
        if list[i] == x {
            return true;
        }
        i += 1;
    }
    false
}

} // verus!
