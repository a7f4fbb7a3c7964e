use linux_rtfm::export::{
    decode, enqueue, init_runtime, lock, mask, register, set_affinity, siginfo_t, spawn,
    restore, timer_create, unmask, Delivery, MaskChange, Priority,
};
use linux_rtfm::io::{rest, Stderr, Stdout};
use linux_rtfm::sync::{Barrier, Pid, Timer};
use linux_rtfm::sys::{
    CLOCK_MONOTONIC, SCHED_FIFO, SIGEV_SIGNAL, SIGEV_THREAD_ID, SIGRTMIN, SIG_BLOCK, SIG_UNBLOCK,
    SI_QUEUE,
};

fn bit(signo: i32) -> u64 {
    1u64 << (signo - 1)
}

#[test]
fn init_runtime_blocks_the_signals_in_use() {
    let s = init_runtime(Some(2));
    assert_eq!(s.affinity, [1, 0, 0, 0, 0, 0, 0, 0]);
    assert_eq!(s.policy, SCHED_FIFO);
    assert_eq!(s.sched_priority, 1);
    let block = s.block.unwrap();
    assert_eq!(block.how, SIG_BLOCK);
    assert_eq!(block.set, 0x3_8000_0000);
    assert_eq!(block.set, bit(32) | bit(33) | bit(34));
}

#[test]
fn init_runtime_without_signals_blocks_nothing() {
    assert_eq!(init_runtime(None).block, None);
}

#[test]
fn init_runtime_with_all_signals() {
    let block = init_runtime(Some(31)).block.unwrap();
    assert_eq!(block.set, 0x7fff_ffff_8000_0000);
}

#[test]
fn spawn_asks_for_an_eight_mebibyte_stack() {
    let s = spawn();
    assert_eq!(s.length, 8 * 1024 * 1024);
    assert_eq!(s.prot, 0x3);
    assert_eq!(s.map_flags, 0x20 | 0x02 | 0x0100 | 0x4000000);
    assert_eq!(s.fd, u64::MAX);
    assert_eq!(s.clone_flags, 0x100 | 0x10000 | 0x800);
    assert_eq!(s.stack_high(0x7000_0000), Some(0x7000_0000 + 8 * 1024 * 1024));
    assert_eq!(s.stack_high(u64::MAX), None);
}

#[test]
fn set_affinity_names_one_cpu() {
    let a = set_affinity(77, 3);
    assert_eq!(a.tid, 77);
    assert_eq!(a.mask, [8, 0, 0, 0, 0, 0, 0, 0]);
    assert_eq!(set_affinity(0, 63).mask[0], 1u64 << 63);
}

#[test]
fn timer_create_single_core_notifies_the_process() {
    let t = timer_create(None, 2);
    assert_eq!(t.clock, CLOCK_MONOTONIC);
    assert_eq!(t.event.sigev_value, 0);
    assert_eq!(t.event.sigev_signo, SIGRTMIN + 2);
    assert_eq!(t.event.sigev_notify, SIGEV_SIGNAL);
    assert_eq!(t.event.sigev_tid, 0);
}

#[test]
fn timer_create_multi_core_notifies_the_thread() {
    let t = timer_create(Some(1234), 0);
    assert_eq!(t.event.sigev_signo, SIGRTMIN);
    assert_eq!(t.event.sigev_notify, SIGEV_THREAD_ID);
    assert_eq!(t.event.sigev_tid, 1234);
}

#[test]
fn mask_holds_the_priorities_above_current_up_to_ceiling() {
    // three priorities on signals 32, 33, 34: priority 3 has signal 32
    let m = mask(0..3, 1, 2, true);
    assert_eq!(m, MaskChange { how: SIG_BLOCK, set: bit(33) });
    let m = mask(0..3, 0, 3, false);
    assert_eq!(m, MaskChange { how: SIG_UNBLOCK, set: bit(32) | bit(33) | bit(34) });
    let m = mask(0..3, 1, 3, true);
    assert_eq!(m.set, bit(32) | bit(33));
    let m = mask(0..3, 2, 2, true);
    assert_eq!(m.set, 0);
}

#[test]
fn mask_of_a_second_core_stays_in_its_range() {
    // core 1 owns the offsets 3 and 4: priority 2 has signal 35, priority 1 has 36
    let m = mask(3..5, 0, 2, false);
    assert_eq!(m.set, bit(35) | bit(36));
    let m = mask(3..5, 1, 2, true);
    assert_eq!(m.set, bit(35));
}

#[test]
fn mask_of_the_whole_supply() {
    let m = mask(0..32, 0, 32, true);
    assert_eq!(m.set, 0x7fff_ffff_8000_0000);
}

#[test]
fn mask_change_applies_as_the_kernel_does() {
    let block = MaskChange { how: SIG_BLOCK, set: 0b0110 };
    assert_eq!(block.apply(0b0011), 0b0111);
    let unblock = MaskChange { how: SIG_UNBLOCK, set: 0b0110 };
    assert_eq!(unblock.apply(0b0111), 0b0001);
}

#[test]
fn lock_below_the_ceiling_raises_and_leaving_restores() {
    let mut p = Priority::new(1);
    let raised = lock(&mut p, 2, 0..3).unwrap();
    assert_eq!(p.get(), 2);
    assert_eq!(raised.previous, 1);
    assert_eq!(raised.change, MaskChange { how: SIG_BLOCK, set: bit(33) });
    let back = unmask(raised, 2, 0..3);
    // the cell holds the ceiling while the signals are blocked
    assert_eq!(p.get(), 2);
    assert_eq!(back, MaskChange { how: SIG_UNBLOCK, set: bit(33) });
    restore(&mut p, raised);
    assert_eq!(p.get(), 1);
}

#[test]
fn lock_at_or_above_the_ceiling_changes_nothing() {
    let mut p = Priority::new(2);
    assert_eq!(lock(&mut p, 2, 0..3), None);
    assert_eq!(p.get(), 2);
    let mut p = Priority::new(3);
    assert_eq!(lock(&mut p, 2, 0..3), None);
    assert_eq!(p.get(), 3);
}

#[test]
fn nested_lock_delays_the_peer_and_admits_the_preemptor() {
    // tasks of priority 1, 2 and 3 share a resource with ceiling 2
    let range = 0u8..3;
    let signal_of = |priority: i32| SIGRTMIN + 3 - priority;
    // the handler of priority 1 runs with its own signal blocked
    let mut blocked = bit(signal_of(1));
    let mut p = Priority::new(1);
    let raised = lock(&mut p, 2, range.clone()).unwrap();
    blocked = raised.change.apply(blocked);
    // priority 2 is spawned and stays pending; priority 3 is spawned and preempts
    assert_ne!(blocked & bit(signal_of(2)), 0);
    assert_ne!(blocked & bit(signal_of(1)), 0);
    assert_eq!(blocked & bit(signal_of(3)), 0);
    let back = unmask(raised, 2, range);
    blocked = back.apply(blocked);
    assert_eq!(p.get(), 2);
    restore(&mut p, raised);
    // after the section priority 2 is delivered at once
    assert_eq!(blocked & bit(signal_of(2)), 0);
    assert_ne!(blocked & bit(signal_of(1)), 0);
    assert_eq!(p.get(), 1);
}

#[test]
fn priority_cell_holds_what_was_set() {
    let mut p = Priority::new(0);
    assert_eq!(p.get(), 0);
    p.set(7);
    assert_eq!(p.get(), 7);
}

#[test]
fn enqueue_packs_task_and_slot() {
    let q = enqueue(100, None, 1, 2, 3);
    assert_eq!(q.tgid, 100);
    assert_eq!(q.tid, None);
    assert_eq!(q.sig, SIGRTMIN + 1);
    assert_eq!(q.info.si_code, SI_QUEUE);
    assert_eq!(q.info.si_value, 0x0203);
    let q = enqueue(100, Some(101), 31, 255, 255);
    assert_eq!(q.tid, Some(101));
    assert_eq!(q.sig, 63);
    assert_eq!(q.info.si_value, 0xffff);
}

#[test]
fn decode_inverts_enqueue() {
    for task in [0u8, 1, 7, 128, 255] {
        for index in [0u8, 1, 9, 200, 255] {
            let q = enqueue(1, None, 0, task, index);
            assert_eq!(decode(&q.info, false), Delivery::Task { task, index });
            assert_eq!(decode(&q.info, true), Delivery::Task { task, index });
        }
    }
}

#[test]
fn decode_tells_the_timer_by_the_code() {
    let fired = siginfo_t { si_code: -2, si_value: 0 };
    assert_eq!(decode(&fired, true), Delivery::Timer);
    // a dispatcher without a timer queue decodes whatever it gets
    assert_eq!(decode(&fired, false), Delivery::Task { task: 0, index: 0 });
    let wide = siginfo_t { si_code: SI_QUEUE, si_value: 0x1_0203 };
    assert_eq!(decode(&wide, true), Delivery::Task { task: 2, index: 3 });
}

#[test]
fn register_blocks_the_lower_priorities() {
    let r = register(0..3, 2);
    assert_eq!(r.sig, 33);
    assert_eq!(r.sa_flags, 0x0400_0000 | 0x4);
    assert_eq!(r.sa_mask, bit(34));
    let r = register(0..3, 3);
    assert_eq!(r.sig, 32);
    assert_eq!(r.sa_mask, bit(33) | bit(34));
    let r = register(0..3, 1);
    assert_eq!(r.sig, 34);
    assert_eq!(r.sa_mask, 0);
    let r = register(3..5, 2);
    assert_eq!(r.sig, 35);
    assert_eq!(r.sa_mask, bit(36));
}

#[test]
fn barrier_is_released_once() {
    let b = Barrier::new();
    assert!(!b.wait());
    b.release();
    assert!(b.wait());
    assert!(b.wait());
}

#[test]
fn pid_waits_for_a_published_identifier() {
    let p = Pid::uninit();
    assert_eq!(p.get(), 0);
    assert_eq!(p.wait(), None);
    p.init(4321);
    assert_eq!(p.get(), 4321);
    assert_eq!(p.wait(), Some(4321));
}

#[test]
fn a_loaded_zero_means_not_published() {
    assert_eq!(Pid::published(0), None);
    assert_eq!(Pid::published(4321), Some(4321));
    assert_eq!(Pid::published(-1), Some(-1));
    assert_eq!(Pid::published(i32::MIN), Some(i32::MIN));
}

#[test]
fn timer_cell_holds_the_timer() {
    let t = Timer::uninit();
    assert_eq!(t.get(), 0);
    t.init(5);
    assert_eq!(t.get(), 5);
}

#[test]
fn streams_have_their_descriptors() {
    assert_eq!(Stdout.fileno(), 1);
    assert_eq!(Stderr.fileno(), 2);
}

#[test]
fn rest_drops_what_was_written() {
    let buf = b"foo(42)\n";
    assert_eq!(rest(buf, 0), Some(&buf[..]));
    assert_eq!(rest(buf, 3), Some(&b"(42)\n"[..]));
    assert_eq!(rest(buf, 8), Some(&b""[..]));
    assert_eq!(rest(buf, 9), None);
}

#[test]
fn send_and_sync_assertions_compile() {
    linux_rtfm::export::assert_send::<u32>();
    linux_rtfm::export::assert_sync::<u32>();
}
