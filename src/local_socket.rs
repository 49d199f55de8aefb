//! Local sockets over named pipes: which name types are available, and how a stream learns
//! which end of the pipe it holds so that it can ask for its peer's process id. The named-pipe
//! system calls are made by the caller.
use vstd::prelude::*;

verus! {

/// The kinds of names that local sockets can take on a platform.
#[derive(Debug, Clone, Copy, PartialEq, Eq)]
pub enum NameTypeSupport {
    /// Only file-system paths.
    OnlyPaths,
    /// Only names in a dedicated namespace.
    OnlyNamespaced,
    /// Both kinds.
    Both,
}

impl NameTypeSupport {
    /// Whether file-system paths can be used.
    pub fn paths_supported(self) -> (r: bool)
        ensures
            r == (self is OnlyPaths || self is Both),
    {
        match self {
            NameTypeSupport::OnlyPaths | NameTypeSupport::Both => true,
            NameTypeSupport::OnlyNamespaced => false,
        }
    }

    /// Whether namespaced names can be used.
    pub fn namespace_supported(self) -> (r: bool)
        ensures
            r == (self is OnlyNamespaced || self is Both),
    {
        match self {
            NameTypeSupport::OnlyNamespaced | NameTypeSupport::Both => true,
            NameTypeSupport::OnlyPaths => false,
        }
    }
}

/// The name types of local sockets over named pipes: named pipes live in their own namespace
/// only, whatever the system.
pub fn name_type_support_query() -> (r: NameTypeSupport)
    ensures
        r == NameTypeSupport::OnlyNamespaced,
{
    NameTypeSupport::OnlyNamespaced
}

/// Bit of a named pipe's information flags that marks the server end (`PIPE_SERVER_END`).
pub const PIPE_SERVER_END: u32 = 1;

/// Which end of the pipe a stream holds, as far as it knows.
#[derive(Debug, Clone, Copy, PartialEq, Eq)]
pub enum ServerOrClient {
    Client,
    Server,
    /// Not known: the stream was made from a bare handle.
    Nah,
}

/// The end that a stored code stands for: 0 the client, 1 the server, anything else unknown.
pub fn server_or_client_from(value: u8) -> (r: ServerOrClient)
    ensures
        r == (if value == 0 {
            ServerOrClient::Client
        } else if value == 1 {
            ServerOrClient::Server
        } else {
            ServerOrClient::Nah
        }),
{
    match value {
        0 => ServerOrClient::Client,
        1 => ServerOrClient::Server,
        _ => ServerOrClient::Nah,
    }
}

/// What the system must be asked to find the peer's process id.
#[derive(Debug, Clone, Copy, PartialEq, Eq)]
pub enum PeerPidQuery {
    /// The process id of the pipe's client (asked by the server end).
    ClientProcessId,
    /// The process id of the pipe's server (asked by the client end).
    ServerProcessId,
    /// The pipe's information flags, which tell which end this is; see
    /// [`LocalSocketStream::record_pipe_flags`].
    PipeInfo,
}

/// A listener that hands out the server ends of a named pipe.
#[derive(Debug)]
pub struct LocalSocketListener {
    handle: usize,
}

/// A local socket stream over one end of a named pipe.
#[derive(Debug)]
pub struct LocalSocketStream {
    handle: usize,
    server_or_client: ServerOrClient,
}

impl LocalSocketListener {
    pub closed spec fn handle_spec(&self) -> usize {
        self.handle
    }

    /// The listener for a named pipe instance that the system created for a name.
    pub fn bind(handle: usize) -> (r: Self)
        ensures
            r.handle_spec() == handle,
    {
        LocalSocketListener { handle }
    }

    /// The pipe handle the listener waits on.
    pub fn handle(&self) -> (r: usize)
        ensures
            r == self.handle_spec(),
    {
        self.handle
    }

    /// The stream for a connection that the listener accepted on `handle`: the server end.
    pub fn accept(&self, handle: usize) -> (r: LocalSocketStream)
        ensures
            r.handle_spec() == handle,
            r.role() == ServerOrClient::Server,
    {
        LocalSocketStream { handle, server_or_client: ServerOrClient::Server }
    }
}

impl LocalSocketStream {
    pub closed spec fn handle_spec(&self) -> usize {
        self.handle
    }

    /// Which end the stream knows it holds.
    pub closed spec fn role(&self) -> ServerOrClient {
        self.server_or_client
    }

    /// The stream for a connection made to a server on `handle`: the client end.
    pub fn connect(handle: usize) -> (r: Self)
        ensures
            r.handle_spec() == handle,
            r.role() == ServerOrClient::Client,
    {
        LocalSocketStream { handle, server_or_client: ServerOrClient::Client }
    }

    /// The stream for a bare pipe handle, whose end is not known yet.
    pub fn from_raw_handle(handle: usize) -> (r: Self)
        ensures
            r.handle_spec() == handle,
            r.role() == ServerOrClient::Nah,
    {
        LocalSocketStream { handle, server_or_client: ServerOrClient::Nah }
    }

    /// The pipe handle of the stream.
    pub fn handle(&self) -> (r: usize)
        ensures
            r == self.handle_spec(),
    {
        self.handle
    }

    /// What to ask the system for the peer's process id.
    pub fn peer_pid(&self) -> (r: PeerPidQuery)
        ensures
            self.role() == ServerOrClient::Server ==> r == PeerPidQuery::ClientProcessId,
            self.role() == ServerOrClient::Client ==> r == PeerPidQuery::ServerProcessId,
            self.role() == ServerOrClient::Nah ==> r == PeerPidQuery::PipeInfo,
    {
        match self.server_or_client {
            ServerOrClient::Server => PeerPidQuery::ClientProcessId,
            ServerOrClient::Client => PeerPidQuery::ServerProcessId,
            ServerOrClient::Nah => PeerPidQuery::PipeInfo,
        }
    }

    /// Records which end the stream holds from the pipe's information flags: the server end if
    /// their server-end bit is set, else the client end.
    pub fn record_pipe_flags(&mut self, flags: u32)
        ensures
            final(self).handle_spec() == old(self).handle_spec(),
            final(self).role() == (if flags & PIPE_SERVER_END != 0 {
                ServerOrClient::Server
            } else {
                ServerOrClient::Client
            }),
    {
        let bit = flags & PIPE_SERVER_END;
        assert(bit == 0 || bit == 1) by (bit_vector)
            requires
                bit == flags & 1u32,
        ;
        self.server_or_client = server_or_client_from(bit as u8);
    }
}

} // verus!
