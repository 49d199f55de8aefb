//! A Unix-domain datagram socket and its drop guard. The caller makes the system calls that
//! create, bind and connect the socket; sending and receiving go through
//! [`crate::adapter`].
use crate::path_guard::PathDropGuard;
use vstd::prelude::*;

verus! {

/// The address of a Unix-domain socket.
#[derive(Debug, PartialEq, Eq)]
pub enum UdSocketPath {
    /// No address.
    Unnamed,
    /// A path in the file system, where the socket leaves a file.
    File(String),
    /// A name in the abstract namespace, which leaves no file.
    Namespaced(String),
}

/// A datagram socket in the Unix domain.
#[derive(Debug)]
pub struct UdDatagram {
    drop_guard: PathDropGuard,
    fd: i32,
}

impl UdDatagram {
    /// The socket.
    pub closed spec fn fd_spec(&self) -> i32 {
        self.fd
    }

    /// The guard that removes the socket file.
    pub closed spec fn guard(&self) -> PathDropGuard {
        self.drop_guard
    }

    /// The datagram socket `fd`, freshly created and not bound to any address.
    pub fn unbound(fd: i32) -> (r: Self)
        ensures
            r.fd_spec() == fd,
            r.guard().path_spec() is None,
            !r.guard().enabled_spec(),
    {
        UdDatagram { drop_guard: PathDropGuard::dummy(), fd }
    }

    /// Records that the socket has been bound to `path`: a file path is remembered and its file
    /// removed when the socket goes away; other addresses leave no file and change nothing.
    pub fn bind_with_drop_guard(&mut self, path: UdSocketPath)
        ensures
            final(self).fd_spec() == old(self).fd_spec(),
            match path {
                UdSocketPath::File(p) => final(self).guard().path_spec() == Some(p@)
                    && final(self).guard().enabled_spec(),
                _ => final(self).guard() == old(self).guard(),
            },
    {
        match path {
            UdSocketPath::File(p) => {
                self.drop_guard = PathDropGuard::new(p);
            },
            _ => {},
        }
    }

    /// The datagram socket `fd`, bound to an address; no file is removed when it goes away.
    pub fn bound(fd: i32) -> (r: Self)
        ensures
            r.fd_spec() == fd,
            !r.guard().enabled_spec(),
    {
        Self::unbound(fd)
    }

    /// The datagram socket `fd`, bound to `path`, with a drop guard for a file path.
    pub fn bound_with_drop_guard(fd: i32, path: UdSocketPath) -> (r: Self)
        ensures
            r.fd_spec() == fd,
            match path {
                UdSocketPath::File(p) => r.guard().path_spec() == Some(p@) && r.guard().enabled_spec(),
                _ => !r.guard().enabled_spec(),
            },
    {
        let mut socket = Self::unbound(fd);
        socket.bind_with_drop_guard(path);
        socket
    }

    /// The socket.
    pub fn fd(&self) -> (r: i32)
        ensures
            r == self.fd_spec(),
    {
        self.fd
    }

    /// Whether the socket file is still to be removed.
    pub fn has_drop_guard(&self) -> (r: bool)
        ensures
            r == self.guard().enabled_spec(),
    {
        self.drop_guard.is_enabled()
    }

    /// The socket file to remove now that the socket goes away, at most once.
    pub fn take_removal(&mut self) -> (r: Option<String>)
        ensures
            final(self).fd_spec() == old(self).fd_spec(),
            !final(self).guard().enabled_spec(),
            r is Some <==> old(self).guard().enabled_spec() && old(self).guard().path_spec() is Some,
            r matches Some(p) ==> old(self).guard().path_spec() == Some(p@),
    {
        self.drop_guard.take_removal()
    }
}

/// Whether a datagram of `size` bytes fits a buffer of `buf_len` bytes, so that receiving it
/// into that buffer loses nothing.
pub fn message_fits(size: usize, buf_len: usize) -> (r: bool)
    ensures
        r == (size <= buf_len),
{
    size <= buf_len
}

/// The address of the peer that a datagram came from, as the bytes of its path or name.
#[derive(Debug, PartialEq, Eq)]
pub enum PeerAddress {
    /// The peer is not bound to any address.
    Unnamed,
    /// A path in the file system.
    File(Vec<u8>),
    /// A name in the abstract namespace, without its leading zero byte.
    Namespaced(Vec<u8>),
}

/// Whether `s` holds no zero byte.
pub open spec fn nul_free(s: Seq<u8>) -> bool {
    forall|i: int| 0 <= i < s.len() ==> s[i] != 0
}

/// The address whose `sun_path` part, as long as the system reported it, is `sun_path`: no bytes
/// for an unnamed peer, a zero byte and then the name for an abstract one, else a path that ends
/// at the first zero byte or at the end.
pub fn peer_address(sun_path: &[u8]) -> (r: PeerAddress)
    ensures
        sun_path@.len() == 0 ==> r is Unnamed,
        sun_path@.len() > 0 && sun_path@[0] == 0 ==> (r matches PeerAddress::Namespaced(n) && n@
            == sun_path@.subrange(1, sun_path@.len() as int)),
        sun_path@.len() > 0 && sun_path@[0] != 0 ==> (r matches PeerAddress::File(p) && p@.len()
            <= sun_path@.len() && p@ == sun_path@.subrange(0, p@.len() as int) && nul_free(p@) && (
        p@.len() == sun_path@.len() || sun_path@[p@.len() as int] == 0)),
{
    let len = sun_path.len();
    if len == 0 {
        return PeerAddress::Unnamed;
    }
    let mut out: Vec<u8> = Vec::new();
    if sun_path[0] == 0 {
        let mut i: usize = 1;
        while i < len
            invariant
                1 <= i <= len,
                len == sun_path@.len(),
                out@ == sun_path@.subrange(1, i as int),
            decreases len - i,
        {
            out.push(sun_path[i]);
            assert(out@ =~= sun_path@.subrange(1, i + 1));
            i = i + 1;
        }
        PeerAddress::Namespaced(out)
    } else {
        let mut i: usize = 0;
        while i < len && sun_path[i] != 0
            invariant
                i <= len,
                len == sun_path@.len(),
                out@ == sun_path@.subrange(0, i as int),
                nul_free(out@),
            decreases len - i,
        {
            out.push(sun_path[i]);
            assert(out@ =~= sun_path@.subrange(0, i + 1));
            i = i + 1;
        }
        PeerAddress::File(out)
    }
}

} // verus!
