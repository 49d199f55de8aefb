//! A Unix-domain stream listener: its socket, its drop guard, and the flag arithmetic of its
//! blocking mode. The caller creates, binds and sets the socket listening, and hands it over.
use crate::path_guard::PathDropGuard;
use vstd::prelude::*;

verus! {

/// The file status flag that makes a descriptor non-blocking (`O_NONBLOCK` on Linux).
pub const O_NONBLOCK: i32 = 0o4000;

/// The backlog a listener is set listening with (`SOMAXCONN` on most systems).
pub const LISTEN_BACKLOG: i32 = 128;

/// A Unix-domain byte stream socket server, listening for connections.
#[derive(Debug)]
pub struct UdStreamListener {
    drop_guard: PathDropGuard,
    fd: i32,
}

/// The file status flags `status_flags` with the non-blocking flag set or cleared.
pub open spec fn with_nonblocking(status_flags: i32, nonblocking: bool) -> i32 {
    if nonblocking {
        status_flags | O_NONBLOCK
    } else {
        status_flags & !O_NONBLOCK
    }
}

impl UdStreamListener {
    /// The listening socket.
    pub closed spec fn fd_spec(&self) -> i32 {
        self.fd
    }

    /// The guard that removes the socket file.
    pub closed spec fn guard(&self) -> PathDropGuard {
        self.drop_guard
    }

    /// The listener for `fd`, a socket bound to a path and listening. The socket file is left in
    /// place when the listener goes away.
    pub fn bind(fd: i32) -> (r: Self)
        ensures
            r.fd_spec() == fd,
            r.guard().path_spec() is None,
            !r.guard().enabled_spec(),
    {
        UdStreamListener { drop_guard: PathDropGuard::dummy(), fd }
    }

    /// The listener for `fd`, a socket bound to `path` and listening, which remembers the path
    /// and has the socket file removed when it goes away.
    pub fn bind_with_drop_guard(fd: i32, path: String) -> (r: Self)
        ensures
            r.fd_spec() == fd,
            r.guard().path_spec() == Some(path@),
            r.guard().enabled_spec(),
    {
        UdStreamListener { drop_guard: PathDropGuard::new(path), fd }
    }

    /// A listener for a socket whose file nobody is to remove.
    pub fn from_fd(fd: i32) -> (r: Self)
        ensures
            r.fd_spec() == fd,
            !r.guard().enabled_spec(),
    {
        UdStreamListener { drop_guard: PathDropGuard::dummy(), fd }
    }

    /// The listening socket.
    pub fn fd(&self) -> (r: i32)
        ensures
            r == self.fd_spec(),
    {
        self.fd
    }

    /// Whether the socket file is still to be removed.
    pub fn has_drop_guard(&self) -> (r: bool)
        ensures
            r == self.guard().enabled_spec(),
    {
        self.drop_guard.is_enabled()
    }

    /// The socket file to remove now that the listener goes away, at most once.
    pub fn take_removal(&mut self) -> (r: Option<String>)
        ensures
            final(self).fd_spec() == old(self).fd_spec(),
            !final(self).guard().enabled_spec(),
            r is Some <==> old(self).guard().enabled_spec() && old(self).guard().path_spec() is Some,
            r matches Some(p) ==> old(self).guard().path_spec() == Some(p@),
    {
        self.drop_guard.take_removal()
    }

    /// An endless sequence of connections: each step accepts one.
    pub fn incoming(&self) -> (r: Incoming<'_>)
        ensures
            r.listener_spec() == self,
    {
        Incoming { listener: self }
    }

    /// The file status flags to set so that the socket is in the requested blocking mode, given
    /// its current flags.
    pub fn set_nonblocking(status_flags: i32, nonblocking: bool) -> (r: i32)
        ensures
            r == with_nonblocking(status_flags, nonblocking),
    {
        if nonblocking {
            status_flags | O_NONBLOCK
        } else {
            status_flags & !O_NONBLOCK
        }
    }

    /// Whether a socket with the file status flags `status_flags` is non-blocking.
    pub fn is_nonblocking(status_flags: i32) -> (r: bool)
        ensures
            r == (status_flags & O_NONBLOCK != 0),
    {
        status_flags & O_NONBLOCK != 0
    }
}

/// An endless sequence of incoming connections of a [`UdStreamListener`].
pub struct Incoming<'a> {
    listener: &'a UdStreamListener,
}

impl<'a> Incoming<'a> {
    /// The listener that accepts the connections.
    pub closed spec fn listener_spec(&self) -> &'a UdStreamListener {
        self.listener
    }

    /// The listener that accepts the connections.
    pub fn listener(&self) -> (r: &'a UdStreamListener)
        ensures
            r == self.listener_spec(),
    {
        self.listener
    }

    /// Bounds on the number of items left: at least `usize::MAX`, with no upper bound.
    pub fn size_hint(&self) -> (r: (usize, Option<usize>))
        ensures
            r == (usize::MAX, None::<usize>),
    {
        (usize::MAX, None)
    }
}

/// Setting a blocking mode and then reading it back gives that mode, and leaves every other
/// file status flag as it was.
pub proof fn nonblocking_round_trip(status_flags: i32, nonblocking: bool)
    ensures
        (with_nonblocking(status_flags, nonblocking) & O_NONBLOCK != 0) == nonblocking,
        with_nonblocking(status_flags, nonblocking) & !O_NONBLOCK == status_flags & !O_NONBLOCK,
{
    let f = status_flags;
    assert((f | 0o4000i32) & 0o4000i32 != 0) by (bit_vector);
    assert((f & !0o4000i32) & 0o4000i32 == 0) by (bit_vector);
    assert((f | 0o4000i32) & !0o4000i32 == f & !0o4000i32) by (bit_vector);
    assert((f & !0o4000i32) & !0o4000i32 == f & !0o4000i32) by (bit_vector);
}

} // verus!
