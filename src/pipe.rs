//! The two ends of an unnamed pipe.
use vstd::prelude::*;

verus! {

/// The reading end of an unnamed pipe, made by [`pipe`] together with the writing end.
#[derive(Debug)]
pub struct UnnamedPipeReader {
    fd: i32,
}

/// The writing end of an unnamed pipe, made by [`pipe`] together with the reading end.
#[derive(Debug)]
pub struct UnnamedPipeWriter {
    fd: i32,
}

impl UnnamedPipeReader {
    pub closed spec fn fd_spec(&self) -> i32 {
        self.fd
    }

    /// The descriptor of the reading end.
    pub fn fd(&self) -> (r: i32)
        ensures
            r == self.fd_spec(),
    {
        self.fd
    }
}

impl UnnamedPipeWriter {
    pub closed spec fn fd_spec(&self) -> i32 {
        self.fd
    }

    /// The descriptor of the writing end.
    pub fn fd(&self) -> (r: i32)
        ensures
            r == self.fd_spec(),
    {
        self.fd
    }
}

/// The writing end and the reading end of a pipe whose descriptors the system returned as
/// `ends`: the reading end first, as `pipe(2)` fills them.
pub fn pipe(ends: [i32; 2]) -> (r: (UnnamedPipeWriter, UnnamedPipeReader))
    ensures
        r.0.fd_spec() == ends[1],
        r.1.fd_spec() == ends[0],
{
    (UnnamedPipeWriter { fd: ends[1] }, UnnamedPipeReader { fd: ends[0] })
}

} // verus!
