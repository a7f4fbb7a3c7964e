use linux_rtfm::analyze::Signals;
use linux_rtfm::ast::{App, Idle, Init, Resource, Task};
use linux_rtfm::obligations::{crosses_cores, ownership, waits_for};
use linux_rtfm::syntax::Ownership;

fn task(name: &str, core: u8, priority: u8, resources: Vec<usize>) -> Task {
    Task {
        name: name.to_string(),
        core,
        priority,
        capacity: 1,
        resources,
        spawn: vec![],
        schedule: vec![],
        inputs: 0,
    }
}

fn init(name: &str, late: Vec<usize>) -> Init {
    Init { name: name.to_string(), resources: vec![], spawn: vec![], schedule: vec![], late }
}

fn idle(name: &str, resources: Vec<usize>) -> Idle {
    Idle { name: name.to_string(), resources, spawn: vec![], schedule: vec![] }
}

fn resource(name: &str, late: bool) -> Resource {
    Resource { name: name.to_string(), late, mutable: true }
}

fn app() -> App {
    App {
        name: "APP".to_string(),
        cores: 2,
        inits: vec![Some(init("init0", vec![4])), Some(init("init1", vec![5]))],
        idles: vec![Some(idle("idle0", vec![3])), None],
        resources: vec![
            resource("SHARED", false),
            resource("OWNED", false),
            resource("COOWNED", false),
            resource("IDLE", false),
            resource("LATE0", true),
            resource("LATE1", true),
            resource("UNUSED", false),
        ],
        tasks: vec![
            task("a", 0, 1, vec![0, 2, 3]),
            task("b", 0, 2, vec![0, 1]),
            task("c", 0, 1, vec![2]),
            task("d", 1, 3, vec![4]),
            task("e", 1, 1, vec![5]),
        ],
    }
}

#[test]
fn the_ceiling_is_the_highest_priority_that_accesses() {
    let app = app();
    assert_eq!(ownership(&app, 0), Some(Ownership::Shared { ceiling: 2 }));
    assert_eq!(ownership(&app, 1), Some(Ownership::Owned { priority: 2 }));
    assert_eq!(ownership(&app, 2), Some(Ownership::CoOwned { priority: 1 }));
    // idle counts as priority 0
    assert_eq!(ownership(&app, 3), Some(Ownership::Shared { ceiling: 1 }));
    assert_eq!(ownership(&app, 4), Some(Ownership::Owned { priority: 3 }));
    assert_eq!(ownership(&app, 6), None);
    assert_eq!(ownership(&app, 99), None);
}

#[test]
fn init_does_not_contend() {
    // nothing preempts init: its accesses leave the ownership as it is
    let mut app = app();
    app.inits[0].as_mut().unwrap().resources = vec![1];
    assert_eq!(ownership(&app, 1), Some(Ownership::Owned { priority: 2 }));
    app.inits[0].as_mut().unwrap().resources = vec![6];
    assert_eq!(ownership(&app, 6), None);
    app.idles[0].as_mut().unwrap().resources = vec![6];
    assert_eq!(ownership(&app, 6), Some(Ownership::Owned { priority: 0 }));
}

#[test]
fn a_core_waits_for_the_core_that_initializes_what_it_uses() {
    let app = app();
    // core 1 uses LATE0, which the init of core 0 initializes
    assert!(waits_for(&app, 1, 0));
    // LATE1 is used on the core that initializes it
    assert!(!waits_for(&app, 0, 1));
    assert!(!waits_for(&app, 0, 0));
    assert!(!waits_for(&app, 1, 1));
    assert!(!waits_for(&app, 1, 7));
    let mut app = app;
    app.inits[0] = None;
    assert!(!waits_for(&app, 1, 0));
}

#[test]
fn inputs_cross_cores_with_a_sender_on_another_core() {
    let mut app = app();
    assert!(!crosses_cores(&app, 3));
    app.tasks[0].spawn = vec![1, 3];
    assert!(crosses_cores(&app, 3));
    assert!(!crosses_cores(&app, 1));
    app.tasks[0].spawn = vec![];
    app.inits[0].as_mut().unwrap().schedule = vec![4];
    assert!(crosses_cores(&app, 4));
    assert!(!crosses_cores(&app, 3));
    app.inits[0].as_mut().unwrap().schedule = vec![];
    app.tasks[3].schedule = vec![4, 0];
    assert!(!crosses_cores(&app, 4));
    assert!(crosses_cores(&app, 0));
}

#[test]
fn the_level_of_a_priority_is_its_rank_on_the_core() {
    let s = Signals { priorities: vec![200, 7, 3], start: 4 };
    assert_eq!(s.level(0), 0);
    assert_eq!(s.level(2), 0);
    assert_eq!(s.level(3), 1);
    assert_eq!(s.level(6), 1);
    assert_eq!(s.level(7), 2);
    assert_eq!(s.level(199), 2);
    assert_eq!(s.level(200), 3);
    assert_eq!(s.level(255), 3);
    assert_eq!(Signals { priorities: vec![], start: 0 }.level(9), 0);
}

#[test]
fn a_handler_is_registered_for_the_signal_of_its_priority() {
    let s = Signals { priorities: vec![200, 7, 3], start: 4 };
    for p in [3u8, 7, 200] {
        let r = linux_rtfm::export::register(s.range(), s.level(p));
        assert_eq!(r.sig, 32 + s.signal(p).unwrap() as i32);
        assert_eq!(s.registration(p), Some(r));
    }
    assert_eq!(s.registration(4), None);
    // the handler of priority 7 blocks the signal of priority 3 alone
    let r = s.registration(7).unwrap();
    assert_eq!(r.sig, 32 + 5);
    assert_eq!(r.sa_mask, 1u64 << (32 + 6 - 1));
}
