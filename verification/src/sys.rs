//! The system call surface: constants, error decoding and the plain records
//! that cross it.

use vstd::prelude::*;
use vstd::string::*;
use crate::text::{decimal, push_decimal};

verus! {

/// Page can be read.
pub const PROT_READ: u64 = 0x1;

/// Page can be written.
pub const PROT_WRITE: u64 = 0x2;

/// The mapping is not backed by a file.
pub const MAP_ANONYMOUS: u64 = 0x20;

/// Stack-like segment.
pub const MAP_GROWSDOWN: u64 = 0x0100;

/// Changes are private.
pub const MAP_PRIVATE: u64 = 0x02;

/// For an anonymous mapping, memory may be left uninitialized.
pub const MAP_UNINITIALIZED: u64 = 0x4000000;

/// `sa_sigaction` is used instead of `sa_handler`.
pub const SA_SIGINFO: u64 = 0x00000004;

/// Make certain system calls restartable across signals.
pub const SA_RESTART: u64 = 0x10000000;

/// A restorer is supplied with the action.
pub const SA_RESTORER: u64 = 0x04000000;

/// Smallest real-time signal.
pub const SIGRTMIN: i32 = 32;

/// How many real-time signals the kernel offers.
pub const NSIGNALS: usize = 32;

/// Additionally block these signals.
pub const SIG_BLOCK: i32 = 0;

/// Unblock these signals.
pub const SIG_UNBLOCK: i32 = 1;

/// Block only these signals.
pub const SIG_SETMASK: i32 = 2;

/// The new thread shares memory with its parent.
pub const CLONE_VM: u64 = 0x00000100;

/// The new thread joins the thread group of its parent.
pub const CLONE_THREAD: u64 = 0x00010000;

/// Signal handlers are shared.
pub const CLONE_SIGHAND: u64 = 0x00000800;

/// The signal was issued by `rt_sigqueueinfo`.
pub const SI_QUEUE: i32 = -1;

/// First-in, first-out scheduling policy.
pub const SCHED_FIFO: i32 = 1;

/// Notify by signal.
pub const SIGEV_SIGNAL: i32 = 0;

/// Notify one thread by signal.
pub const SIGEV_THREAD_ID: i32 = 4;

/// Monotonic clock.
pub const CLOCK_MONOTONIC: i32 = 1;

/// Monotonic clock without adjustments.
pub const CLOCK_MONOTONIC_RAW: i32 = 4;

/// The timer's value is an absolute time.
pub const TIMER_ABSTIME: i32 = 1;

/// The exit code of a fatal runtime error.
pub const FATAL_EXIT_CODE: u8 = 101;

/// Thin wrapper around Linux error codes.
#[derive(Clone, Copy, PartialEq, Eq, Structural, Debug)]
pub struct Error {
    code: u8,
}

impl View for Error {
    type V = u8;

    closed spec fn view(&self) -> u8 {
        self.code
    }
}

impl Error {
    /// Returns the error code as an integer.
    pub fn code(self) -> (code: u8)
        ensures
            code == self@,
    {
        self.code
    }

    /// What the error is called: the symbolic name of the four codes that the
    /// runtime meets, and `Error(n)` for any other code `n`.
    pub open spec fn spec_name(code: u8) -> Seq<char> {
        if code == 1 {
            "EPERM"@
        } else if code == 3 {
            "ESRCH"@
        } else if code == 14 {
            "EFAULT"@
        } else if code == 22 {
            "EINVAL"@
        } else {
            "Error("@ + decimal(code as nat) + ")"@
        }
    }

    /// The name of the error, as it is printed.
    pub fn name(self) -> (s: String)
        ensures
            s@ == Self::spec_name(self@),
    {
        if self.code == 1 {
            String::from_str("EPERM")
        } else if self.code == 3 {
            String::from_str("ESRCH")
        } else if self.code == 14 {
            String::from_str("EFAULT")
        } else if self.code == 22 {
            String::from_str("EINVAL")
        } else {
            let mut s = String::from_str("Error(");
            push_decimal(&mut s, self.code);
            s.append(")");
            s
        }
    }
}

/// What a raw system call result means: a value in `-255 ..= -1` is the
/// negated error code, anything else is the call's result.
pub open spec fn spec_check(ret: isize) -> Result<isize, u8> {
    if -256 < ret < 0 {
        Err((-ret) as u8)
    } else {
        Ok(ret)
    }
}

/// Decodes the raw result of a system call.
pub fn check(ret: isize) -> (r: Result<isize, Error>)
    ensures
        match spec_check(ret) {
            Ok(v) => r.is_ok() && r.unwrap() == v,
            Err(code) => r.is_err() && r.unwrap_err()@ == code,
        },
{
    if ret < 0 && ret > -256 {
        let code: u8 = (-ret) as u8;
        Err(Error { code })
    } else {
        Ok(ret)
    }
}

/// Alternative signal handling.
#[derive(Clone, Copy, PartialEq, Eq, Structural, Debug)]
pub enum Action {
    /// Default action.
    DFL,
    /// Ignore signal.
    IGN,
}

impl Action {
    /// The value that stands for the action in a signal action record.
    pub fn value(self) -> (v: usize)
        ensures
            v == (if self == Action::DFL { 0usize } else { 1usize }),
    {
        match self {
            Action::DFL => 0,
            Action::IGN => 1,
        }
    }
}

} // verus!
