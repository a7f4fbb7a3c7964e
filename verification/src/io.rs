//! Unbuffered output: the standard streams and the progress of a write.

use vstd::prelude::*;
use vstd::slice::slice_subrange;

verus! {

/// *Unbuffered* standard output singleton.
#[derive(Clone, Copy, PartialEq, Eq, Structural, Debug)]
pub struct Stdout;

/// *Unbuffered* standard error singleton.
#[derive(Clone, Copy, PartialEq, Eq, Structural, Debug)]
pub struct Stderr;

impl Stdout {
    /// The file descriptor of the stream.
    pub fn fileno(&self) -> (fd: u32)
        ensures
            fd == 1,
    {
        1
    }
}

impl Stderr {
    /// The file descriptor of the stream.
    pub fn fileno(&self) -> (fd: u32)
        ensures
            fd == 2,
    {
        2
    }
}

/// What is left of `buf` once a write took its first `n` bytes; `None` where
/// the write claims more bytes than the buffer has. Writing an entire buffer
/// is writing what is left until nothing is.
pub fn rest<'a>(buf: &'a [u8], n: usize) -> (r: Option<&'a [u8]>)
    ensures
        n <= buf@.len() <==> r is Some,
        r matches Some(left) ==> left@ == buf@.subrange(n as int, buf@.len() as int),
{
    if n <= buf.len() {
        Some(slice_subrange(buf, n, buf.len()))
    } else {
        None
    }
}

} // verus!
