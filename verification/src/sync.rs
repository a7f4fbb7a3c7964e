//! Cells that the bootstrap shares between executors.
//!
//! Their values are written by one thread and read by others, so no contract
//! here speaks of what a load returns beyond what the load itself shows.

use vstd::prelude::*;
use core::sync::atomic::{AtomicBool, AtomicI32};
use core::sync::atomic::Ordering;

verus! {

/// One-shot synchronization barrier: released once by the executor that
/// publishes late resources, awaited by the executors that read them.
pub struct Barrier {
    inner: AtomicBool,
}

impl Barrier {
    /// A barrier that was not released yet.
    pub fn new() -> Self {
        Self { inner: AtomicBool::new(false) }
    }

    /// Releases the barrier: a store with release ordering.
    pub fn release(&self) {
        self.inner.store(true, Ordering::Release)
    }

    /// One step of waiting: a load with acquire ordering, which tells whether
    /// the barrier was released. The waiting executor repeats it until it
    /// returns `true`.
    pub fn wait(&self) -> bool {
        self.inner.load(Ordering::Acquire)
    }
}

/// One-shot cell for a process or thread identifier; zero means that the
/// identifier was not published yet.
pub struct Pid {
    inner: AtomicI32,
}

impl Pid {
    /// A cell without an identifier.
    pub fn uninit() -> Self {
        Self { inner: AtomicI32::new(0) }
    }

    /// The cell's value.
    pub fn get(&self) -> i32 {
        self.inner.load(Ordering::Relaxed)
    }

    /// Publishes the identifier.
    pub fn init(&self, pid: i32) {
        self.inner.store(pid, Ordering::Relaxed)
    }

    /// One step of waiting for the identifier: `None` while the cell is
    /// empty, in which case the caller yields the processor and asks again.
    pub fn wait(&self) -> (r: Option<i32>)
        ensures
            r matches Some(pid) ==> pid != 0,
            exists|value: i32|
                r == #[trigger] Pid::spec_published(value),
    {
        let value: i32 = self.inner.load(Ordering::Relaxed);
        let r = Pid::published(value);
        assert(r == Pid::spec_published(value));
        r
    }
}

/// One-shot cell for the identifier of an executor's POSIX timer.
pub struct Timer {
    inner: AtomicI32,
}

impl Timer {
    /// A cell without a timer.
    pub fn uninit() -> Self {
        Self { inner: AtomicI32::new(0) }
    }

    /// The cell's value.
    pub fn get(&self) -> i32 {
        self.inner.load(Ordering::Relaxed)
    }

    /// Publishes the timer.
    pub fn init(&self, timer: i32) {
        self.inner.store(timer, Ordering::Relaxed)
    }
}

impl Pid {
    /// What a value that was loaded from the cell means: zero says that no
    /// identifier was published yet, any other value is the identifier.
    pub open spec fn spec_published(value: i32) -> Option<i32> {
        if value == 0 {
            None
        } else {
            Some(value)
        }
    }

    /// What a value that was loaded from the cell means. `wait` answers with
    /// the meaning of the value that its load returned; which value that is
    /// depends on what other threads have stored.
    pub fn published(value: i32) -> (r: Option<i32>)
        ensures
            r == Pid::spec_published(value),
    {
        if value == 0 {
            None
        } else {
            Some(value)
        }
    }
}

} // verus!
