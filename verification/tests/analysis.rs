use linux_rtfm::analyze;
use linux_rtfm::ast::{contains, App, Context, Idle, Init, Resource, Task};
use linux_rtfm::check::{self, Error};
use linux_rtfm::syntax::{Analysis, Channel, Dispatcher, Free, Location, Ownership, TimerQueue};

fn task(name: &str, core: u8, priority: u8) -> Task {
    Task {
        name: name.to_string(),
        core,
        priority,
        capacity: 1,
        resources: vec![],
        spawn: vec![],
        schedule: vec![],
        inputs: 0,
    }
}

fn init(name: &str) -> Init {
    Init { name: name.to_string(), resources: vec![], spawn: vec![], schedule: vec![], late: vec![] }
}

fn idle(name: &str) -> Idle {
    Idle { name: name.to_string(), resources: vec![], spawn: vec![], schedule: vec![] }
}

fn empty(cores: u8, tasks: usize, resources: usize) -> Analysis {
    Analysis {
        used_cores: (0..cores).collect(),
        channels: (0..cores).map(|_| vec![]).collect(),
        free_queues: (0..tasks).map(|_| vec![]).collect(),
        timer_queues: (0..cores).map(|_| None).collect(),
        ownerships: (0..resources).map(|_| None).collect(),
        locations: vec![],
        late_resources: (0..cores).map(|_| vec![]).collect(),
        initialization_barriers: (0..cores).map(|_| vec![]).collect(),
        send_types: (0..cores).map(|_| vec![]).collect(),
        sync_types: (0..cores).map(|_| vec![]).collect(),
    }
}

/// Tasks of priority 1, 2 and 3 on one core; the tasks of priority 1 and 2
/// share a resource.
fn lock_app() -> (App, Analysis) {
    let mut bar = task("bar", 0, 2);
    bar.resources = vec![0];
    let baz = task("baz", 0, 3);
    let mut foo = task("foo", 0, 1);
    foo.resources = vec![0];
    foo.spawn = vec![0, 1];
    let mut i = init("init");
    i.spawn = vec![2];
    let app = App {
        name: "APP".to_string(),
        cores: 1,
        inits: vec![Some(i)],
        idles: vec![Some(idle("idle"))],
        resources: vec![Resource { name: "SHARED".to_string(), late: false, mutable: true }],
        tasks: vec![bar, baz, foo],
    };
    let mut parent = empty(1, 3, 1);
    parent.channels[0] = vec![
        Dispatcher { priority: 1, channels: vec![Channel { sender: 0, tasks: vec![2] }] },
        Dispatcher { priority: 2, channels: vec![Channel { sender: 0, tasks: vec![0] }] },
        Dispatcher { priority: 3, channels: vec![Channel { sender: 0, tasks: vec![1] }] },
    ];
    parent.free_queues = vec![
        vec![Free { sender: 0, ceiling: Some(1) }],
        vec![Free { sender: 0, ceiling: Some(1) }],
        vec![Free { sender: 0, ceiling: None }],
    ];
    parent.ownerships = vec![Some(Ownership::Shared { ceiling: 2 })];
    parent.locations = vec![Location { resource: 0, core: Some(0) }];
    (app, parent)
}

#[test]
fn signals_go_to_priorities_highest_first() {
    let (app, parent) = lock_app();
    let a = analyze::app(parent, &app).unwrap();
    assert_eq!(a.signals.len(), 1);
    assert_eq!(a.signals[0].start, 0);
    assert_eq!(a.signals[0].priorities, vec![3, 2, 1]);
    assert_eq!(a.signals[0].range(), 0..3);
    assert_eq!(a.signals[0].len(), 3);
    assert_eq!(a.signals[0].signal(3), Some(0));
    assert_eq!(a.signals[0].signal(2), Some(1));
    assert_eq!(a.signals[0].signal(1), Some(2));
    assert_eq!(a.signals[0].signal(4), None);
    assert_eq!(a.signals[0].signal(0), None);
}

#[test]
fn a_higher_priority_has_the_lower_signal() {
    let app = App {
        name: "APP".to_string(),
        cores: 1,
        inits: vec![None],
        idles: vec![None],
        resources: vec![],
        tasks: vec![task("a", 0, 7), task("b", 0, 200), task("c", 0, 1), task("d", 0, 7)],
    };
    let a = analyze::app(empty(1, 4, 0), &app).unwrap();
    assert_eq!(a.signals[0].priorities, vec![200, 7, 1]);
    let s = &a.signals[0];
    assert!(s.signal(200).unwrap() < s.signal(7).unwrap());
    assert!(s.signal(7).unwrap() < s.signal(1).unwrap());
}

#[test]
fn cores_take_disjoint_ranges() {
    let app = App {
        name: "APP".to_string(),
        cores: 3,
        inits: vec![None, None, None],
        idles: vec![None, None, None],
        resources: vec![],
        tasks: vec![task("a", 0, 1), task("b", 0, 2), task("c", 2, 1), task("d", 2, 5)],
    };
    let mut parent = empty(3, 4, 0);
    parent.timer_queues[1] =
        Some(TimerQueue { capacity: 1, ceiling: 4, priority: 4, tasks: vec![0] });
    parent.timer_queues[2] =
        Some(TimerQueue { capacity: 1, ceiling: 5, priority: 5, tasks: vec![0] });
    let a = analyze::app(parent, &app).unwrap();
    assert_eq!(a.signals[0].range(), 0..2);
    assert_eq!(a.signals[1].range(), 2..3);
    assert_eq!(a.signals[2].range(), 3..5);
    assert_eq!(a.signals[1].priorities, vec![4]);
    assert_eq!(a.signals[2].priorities, vec![5, 1]);
    assert_eq!(a.signals[2].signal(5), Some(3));
    assert_eq!(a.signals[2].signal(1), Some(4));
}

#[test]
fn a_core_without_tasks_has_no_signals() {
    let app = App {
        name: "APP".to_string(),
        cores: 2,
        inits: vec![None, None],
        idles: vec![None, None],
        resources: vec![],
        tasks: vec![task("a", 1, 1)],
    };
    let a = analyze::app(empty(2, 1, 0), &app).unwrap();
    assert_eq!(a.signals[0].range(), 0..0);
    assert_eq!(a.signals[1].range(), 0..1);
}

fn many(levels: u8) -> App {
    App {
        name: "APP".to_string(),
        cores: 2,
        inits: vec![None, None],
        idles: vec![None, None],
        resources: vec![],
        tasks: (0..levels)
            .map(|i| task(&format!("t{}", i), i % 2, 1 + i / 2))
            .collect(),
    }
}

#[test]
fn thirty_two_levels_fit() {
    let app = many(32);
    let a = analyze::app(empty(2, 32, 0), &app).unwrap();
    assert_eq!(a.signals[0].range(), 0..16);
    assert_eq!(a.signals[1].range(), 16..32);
    assert_eq!(check::app(&app, &empty(2, 32, 0)), Ok(()));
}

#[test]
fn thirty_three_levels_do_not_fit() {
    let app = many(33);
    assert!(analyze::app(empty(2, 33, 0), &app).is_none());
    assert_eq!(check::app(&app, &empty(2, 33, 0)), Err(Error::NotEnoughSignals));
}

#[test]
fn uses_priority_counts_tasks_and_the_timer_queue() {
    let (app, mut parent) = lock_app();
    assert!(analyze::uses_priority(&app, &parent, 0, 3));
    assert!(!analyze::uses_priority(&app, &parent, 0, 4));
    assert!(!analyze::uses_priority(&app, &parent, 1, 3));
    parent.timer_queues[0] =
        Some(TimerQueue { capacity: 1, ceiling: 4, priority: 4, tasks: vec![] });
    assert!(analyze::uses_priority(&app, &parent, 0, 4));
    assert_eq!(analyze::priorities(&app, &parent, 0), vec![4, 3, 2, 1]);
}

#[test]
fn a_valid_application_passes() {
    let (app, parent) = lock_app();
    assert_eq!(check::app(&app, &parent), Ok(()));
    assert!(parent.is_fit(&app));
}

#[test]
fn a_model_without_entries_for_each_core_is_malformed() {
    let (mut app, parent) = lock_app();
    app.cores = 2;
    assert_eq!(check::app(&app, &parent), Err(Error::Malformed));
    let (mut app, parent) = lock_app();
    app.tasks[0].core = 1;
    assert_eq!(check::app(&app, &parent), Err(Error::Malformed));
}

#[test]
fn a_reference_to_an_undeclared_task_is_rejected() {
    let (mut app, parent) = lock_app();
    app.tasks[2].spawn.push(3);
    assert_eq!(check::app(&app, &parent), Err(Error::Undeclared));
    let (mut app, parent) = lock_app();
    app.inits[0].as_mut().unwrap().schedule.push(9);
    assert_eq!(check::app(&app, &parent), Err(Error::Undeclared));
    let (mut app, parent) = lock_app();
    app.idles[0].as_mut().unwrap().resources.push(1);
    assert_eq!(check::app(&app, &parent), Err(Error::Undeclared));
}

fn two_cores() -> (App, Analysis) {
    let app = App {
        name: "APP".to_string(),
        cores: 2,
        inits: vec![Some(init("a")), Some(init("b"))],
        idles: vec![Some(idle("c")), Some(idle("d"))],
        resources: vec![
            Resource { name: "X".to_string(), late: false, mutable: true },
            Resource { name: "Y".to_string(), late: true, mutable: true },
        ],
        tasks: vec![task("ping", 0, 1), task("pong", 1, 1)],
    };
    (app, empty(2, 2, 2))
}

#[test]
fn a_resource_on_two_cores_is_rejected() {
    let (mut app, parent) = two_cores();
    app.tasks[0].resources = vec![0];
    app.tasks[1].resources = vec![0];
    assert_eq!(check::app(&app, &parent), Err(Error::SharedAcrossCores));
    let (mut app, parent) = two_cores();
    app.tasks[0].resources = vec![0];
    app.idles[0].as_mut().unwrap().resources = vec![0];
    assert_eq!(check::app(&app, &parent), Ok(()));
}

#[test]
fn a_late_resource_in_init_is_rejected() {
    let (mut app, parent) = two_cores();
    app.inits[1].as_mut().unwrap().resources = vec![1];
    assert_eq!(check::app(&app, &parent), Err(Error::LateResourceInInit));
    let (mut app, parent) = two_cores();
    app.idles[1].as_mut().unwrap().resources = vec![1];
    assert_eq!(check::app(&app, &parent), Ok(()));
}

#[test]
fn schedule_without_a_timer_queue_is_rejected() {
    let (mut app, mut parent) = two_cores();
    app.tasks[1].schedule = vec![0];
    assert_eq!(check::app(&app, &parent), Err(Error::ScheduleWithoutTimerQueue));
    parent.timer_queues[1] =
        Some(TimerQueue { capacity: 1, ceiling: 1, priority: 1, tasks: vec![0] });
    assert_eq!(check::app(&app, &parent), Ok(()));
}

#[test]
fn init_and_idle_share_one_namespace() {
    let (mut app, parent) = two_cores();
    app.idles[1].as_mut().unwrap().name = "a".to_string();
    assert_eq!(check::app(&app, &parent), Err(Error::DuplicateIdentifier));
    let (mut app, parent) = two_cores();
    app.inits[1].as_mut().unwrap().name = "a".to_string();
    assert_eq!(check::app(&app, &parent), Err(Error::DuplicateIdentifier));
    // a task may be named like an init
    let (mut app, parent) = two_cores();
    app.tasks[0].name = "a".to_string();
    assert_eq!(check::app(&app, &parent), Ok(()));
}

#[test]
fn the_first_broken_rule_is_reported() {
    let (mut app, parent) = two_cores();
    app.idles[1].as_mut().unwrap().name = "a".to_string();
    app.tasks[1].schedule = vec![0];
    assert_eq!(check::app(&app, &parent), Err(Error::ScheduleWithoutTimerQueue));
    app.tasks[0].spawn = vec![7];
    assert_eq!(check::app(&app, &parent), Err(Error::Undeclared));
}

#[test]
fn contexts_come_inits_first_then_idles_then_tasks() {
    let (mut app, _) = two_cores();
    app.inits[0] = None;
    app.idles[1] = None;
    assert!(app.is_wf());
    assert_eq!(
        app.contexts(),
        vec![
            Context::Init(1),
            Context::Idle(0),
            Context::SoftwareTask(0),
            Context::SoftwareTask(1)
        ]
    );
    assert_eq!(Context::Init(1).executor(&app), 1);
    assert_eq!(Context::SoftwareTask(1).executor(&app), 1);
    assert_eq!(Context::SoftwareTask(1).ident(&app), "pong");
    assert_eq!(Context::Idle(0).ident(&app), "c");
    assert_eq!(Context::SoftwareTask(0).priority(&app), 1);
    assert_eq!(Context::Idle(0).priority(&app), 0);
    assert!(Context::Init(1).is_init());
    assert!(!Context::Init(1).is_idle());
    assert!(Context::Idle(0).is_idle());
}

#[test]
fn only_declared_contexts_are_declared() {
    let (mut app, _) = two_cores();
    app.inits[0] = None;
    assert!(!Context::Init(0).is_declared(&app));
    assert!(Context::Init(1).is_declared(&app));
    assert!(!Context::Init(2).is_declared(&app));
    assert!(Context::Idle(0).is_declared(&app));
    assert!(Context::SoftwareTask(1).is_declared(&app));
    assert!(!Context::SoftwareTask(2).is_declared(&app));
}

#[test]
fn uses_schedule_looks_at_every_context_of_the_core() {
    let (mut app, _) = two_cores();
    assert!(!app.uses_schedule(0));
    app.tasks[1].schedule = vec![0];
    assert!(!app.uses_schedule(0));
    assert!(app.uses_schedule(1));
    let (mut app, _) = two_cores();
    app.inits[0].as_mut().unwrap().schedule = vec![1];
    assert!(app.uses_schedule(0));
    let (mut app, _) = two_cores();
    app.idles[1].as_mut().unwrap().schedule = vec![1];
    assert!(app.uses_schedule(1));
    assert!(!app.uses_schedule(7));
}

#[test]
fn contains_finds_entries() {
    assert!(contains(&vec![3, 1, 2], 1));
    assert!(!contains(&vec![3, 1, 2], 0));
    assert!(!contains(&vec![], 0));
}

#[test]
fn ownership_needs_a_lock_below_the_ceiling() {
    let shared = Ownership::Shared { ceiling: 2 };
    assert!(shared.needs_lock(1));
    assert!(!shared.needs_lock(2));
    assert_eq!(shared.ceiling(), 2);
    assert!(!Ownership::Owned { priority: 3 }.needs_lock(1));
    assert!(!Ownership::CoOwned { priority: 3 }.needs_lock(1));
    assert_eq!(Ownership::Owned { priority: 3 }.ceiling(), 3);
    assert_eq!(Ownership::CoOwned { priority: 4 }.ceiling(), 4);
}

#[test]
fn an_analysis_of_another_application_does_not_fit() {
    let (app, parent) = lock_app();
    let mut p = parent.clone();
    p.channels.push(vec![]);
    assert!(!p.is_fit(&app));
    let mut p = parent.clone();
    p.channels[0][0].priority = 9;
    assert!(!p.is_fit(&app));
    let mut p = parent.clone();
    p.channels[0][0].channels[0].tasks.push(3);
    assert!(!p.is_fit(&app));
    let mut p = parent.clone();
    p.channels[0][0].channels[0].sender = 1;
    assert!(!p.is_fit(&app));
    let mut p = parent.clone();
    p.locations[0].core = None;
    assert!(!p.is_fit(&app));
    let mut p = parent.clone();
    p.locations[0].resource = 1;
    assert!(!p.is_fit(&app));
    let mut p = parent.clone();
    p.free_queues[0][0].sender = 1;
    assert!(!p.is_fit(&app));
    let mut p = parent.clone();
    p.timer_queues[0] = Some(TimerQueue { capacity: 1, ceiling: 1, priority: 1, tasks: vec![5] });
    assert!(!p.is_fit(&app));
    let mut p = parent.clone();
    p.used_cores.push(1);
    assert!(!p.is_fit(&app));
    let mut p = parent.clone();
    p.late_resources[0].push(1);
    assert!(!p.is_fit(&app));
    let mut p = parent.clone();
    p.initialization_barriers[0].push(1);
    assert!(!p.is_fit(&app));
    let (mut app, parent) = lock_app();
    app.tasks[0].capacity = 129;
    assert!(!parent.is_fit(&app));
    let (mut app, mut parent) = lock_app();
    app.tasks[0].capacity = 128;
    assert!(parent.is_fit(&app));
    parent.free_queues[0].push(Free { sender: 0, ceiling: None });
    assert!(!parent.is_fit(&app));
}

#[test]
fn an_analysis_must_provide_for_every_call_site() {
    // foo spawns bar: without bar's free queue, or without bar's variant,
    // the analysis does not fit
    let (app, parent) = lock_app();
    let mut p = parent.clone();
    p.free_queues[0].clear();
    assert!(!p.is_fit(&app));
    let mut p = parent.clone();
    p.channels[0][1].channels[0].tasks.clear();
    assert!(!p.is_fit(&app));
    // a schedule needs the task in the timer queue of the core
    let (mut app, mut parent) = two_cores();
    parent.channels[0] =
        vec![Dispatcher { priority: 1, channels: vec![Channel { sender: 1, tasks: vec![0] }] }];
    parent.free_queues[0] = vec![Free { sender: 1, ceiling: Some(1) }];
    app.tasks[1].schedule = vec![0];
    parent.timer_queues[1] =
        Some(TimerQueue { capacity: 1, ceiling: 1, priority: 1, tasks: vec![] });
    assert!(!parent.is_fit(&app));
    parent.timer_queues[1].as_mut().unwrap().tasks = vec![0];
    assert!(parent.is_fit(&app));
    assert_eq!(linux_rtfm::syntax::first_index(&vec![4, 2, 4], 4), Some(0));
    assert_eq!(linux_rtfm::syntax::first_index(&vec![4, 2, 4], 2), Some(1));
    assert_eq!(linux_rtfm::syntax::first_index(&vec![4, 2, 4], 3), None);
    assert!(linux_rtfm::syntax::all_below(&vec![4, 2, 4], 5));
    assert!(!linux_rtfm::syntax::all_below(&vec![4, 2, 4], 4));
}

#[test]
fn an_analysis_must_say_what_the_application_owes() {
    let (app, parent) = lock_app();
    // the ceiling of SHARED is 2
    let mut p = parent.clone();
    p.ownerships[0] = Some(Ownership::Shared { ceiling: 3 });
    assert!(!p.is_fit(&app));
    p.ownerships[0] = Some(Ownership::CoOwned { priority: 2 });
    assert!(!p.is_fit(&app));
    p.ownerships[0] = None;
    assert!(!p.is_fit(&app));
    // nobody waits for anybody
    let mut p = parent.clone();
    p.initialization_barriers[0] = vec![0];
    assert!(!p.is_fit(&app));
    // core 1 uses a late resource of core 0
    let (mut app, mut parent) = two_cores();
    app.tasks[1].resources = vec![1];
    app.inits[0].as_mut().unwrap().late = vec![1];
    parent.ownerships[1] = Some(Ownership::Owned { priority: 1 });
    parent.late_resources[0] = vec![1];
    assert!(!parent.is_fit(&app));
    parent.initialization_barriers[1] = vec![0];
    assert!(parent.is_fit(&app));
    parent.late_resources[0] = vec![];
    assert!(!parent.is_fit(&app));
    assert!(linux_rtfm::syntax::same_list(&vec![1, 2], &vec![1, 2]));
    assert!(!linux_rtfm::syntax::same_list(&vec![1, 2], &vec![2, 1]));
    assert!(!linux_rtfm::syntax::same_list(&vec![1, 2], &vec![1]));
    assert!(linux_rtfm::syntax::includes(&vec![1, 2], 2));
    assert!(!linux_rtfm::syntax::includes(&vec![1, 2], 0));
    assert!(linux_rtfm::syntax::same_ownership(None, None));
    assert!(!linux_rtfm::syntax::same_ownership(None, Some(Ownership::Owned { priority: 0 })));
    assert!(!linux_rtfm::syntax::same_ownership(
        Some(Ownership::CoOwned { priority: 0 }),
        Some(Ownership::Owned { priority: 0 })
    ));
}

#[test]
fn timer_queue_and_dispatcher_lookups() {
    let (_, mut parent) = lock_app();
    assert!(parent.timer_queue(0).is_none());
    assert!(parent.timer_queue(3).is_none());
    parent.timer_queues[0] =
        Some(TimerQueue { capacity: 2, ceiling: 3, priority: 3, tasks: vec![1] });
    assert_eq!(parent.timer_queue(0).unwrap().capacity, 2);
    assert!(parent.dispatches(0, 1));
    assert!(parent.dispatches(0, 3));
    assert!(!parent.dispatches(0, 4));
    assert!(!parent.dispatches(1, 1));
}
