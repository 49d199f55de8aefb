use interprocess::datagram::{peer_address, PeerAddress};
use interprocess::datagram::{UdDatagram, UdSocketPath};
use interprocess::listener::{UdStreamListener, LISTEN_BACKLOG, O_NONBLOCK};
use interprocess::local_socket::{
    name_type_support_query, server_or_client_from, LocalSocketListener, LocalSocketStream,
    NameTypeSupport, PeerPidQuery, ServerOrClient,
};
use interprocess::path_guard::PathDropGuard;
use interprocess::pipe::pipe;

#[test]
fn listener_without_guard_leaves_file() {
    let mut l = UdStreamListener::bind(7);
    assert_eq!(l.fd(), 7);
    assert!(!l.has_drop_guard());
    assert_eq!(l.take_removal(), None);
    assert_eq!(LISTEN_BACKLOG, 128);
}

#[test]
fn listener_guard_removes_once() {
    let mut l = UdStreamListener::bind_with_drop_guard(9, String::from("/tmp/example.sock"));
    assert!(l.has_drop_guard());
    assert_eq!(l.take_removal(), Some(String::from("/tmp/example.sock")));
    assert!(!l.has_drop_guard());
    assert_eq!(l.take_removal(), None);
    assert_eq!(l.fd(), 9);
}

#[test]
fn listener_from_fd_has_no_guard() {
    let l = UdStreamListener::from_fd(4);
    assert!(!l.has_drop_guard());
    let inc = l.incoming();
    assert_eq!(inc.listener().fd(), 4);
    assert_eq!(inc.size_hint(), (usize::MAX, None));
}

#[test]
fn nonblocking_flags() {
    let flags = 0o2;
    let set = UdStreamListener::set_nonblocking(flags, true);
    assert_eq!(set, 0o2 | O_NONBLOCK);
    assert!(UdStreamListener::is_nonblocking(set));
    let cleared = UdStreamListener::set_nonblocking(set, false);
    assert_eq!(cleared, 0o2);
    assert!(!UdStreamListener::is_nonblocking(cleared));
    assert_eq!(UdStreamListener::set_nonblocking(set, true), set);
}

#[test]
fn drop_guard_states() {
    let mut dummy = PathDropGuard::dummy();
    assert!(!dummy.is_enabled());
    assert_eq!(dummy.take_removal(), None);
    let mut g = PathDropGuard::new(String::from("a.sock"));
    assert!(g.is_enabled());
    assert_eq!(g.take_removal(), Some(String::from("a.sock")));
    assert_eq!(g.take_removal(), None);
}

#[test]
fn pipe_ends_in_order() {
    let (w, r) = pipe([5, 6]);
    assert_eq!(r.fd(), 5);
    assert_eq!(w.fd(), 6);
}

#[test]
fn named_pipes_support_namespaced_names_only() {
    let s = name_type_support_query();
    assert_eq!(s, NameTypeSupport::OnlyNamespaced);
    assert!(s.namespace_supported());
    assert!(!s.paths_supported());
    assert!(NameTypeSupport::Both.paths_supported());
    assert!(!NameTypeSupport::OnlyPaths.namespace_supported());
}

#[test]
fn peer_pid_by_role() {
    let listener = LocalSocketListener::bind(100);
    assert_eq!(listener.handle(), 100);
    let server = listener.accept(101);
    assert_eq!(server.handle(), 101);
    assert_eq!(server.peer_pid(), PeerPidQuery::ClientProcessId);
    let client = LocalSocketStream::connect(102);
    assert_eq!(client.peer_pid(), PeerPidQuery::ServerProcessId);
    let mut bare = LocalSocketStream::from_raw_handle(103);
    assert_eq!(bare.peer_pid(), PeerPidQuery::PipeInfo);
    bare.record_pipe_flags(0x5);
    assert_eq!(bare.peer_pid(), PeerPidQuery::ClientProcessId);
    let mut bare = LocalSocketStream::from_raw_handle(104);
    bare.record_pipe_flags(0x4);
    assert_eq!(bare.peer_pid(), PeerPidQuery::ServerProcessId);
}

#[test]
fn role_codes() {
    assert_eq!(server_or_client_from(0), ServerOrClient::Client);
    assert_eq!(server_or_client_from(1), ServerOrClient::Server);
    assert_eq!(server_or_client_from(2), ServerOrClient::Nah);
    assert_eq!(server_or_client_from(255), ServerOrClient::Nah);
}

#[test]
fn datagram_guard_only_for_file_paths() {
    let mut d = UdDatagram::unbound(3);
    assert!(!d.has_drop_guard());
    d.bind_with_drop_guard(UdSocketPath::Namespaced(String::from("abstract")));
    assert!(!d.has_drop_guard());
    d.bind_with_drop_guard(UdSocketPath::File(String::from("/tmp/d.sock")));
    assert!(d.has_drop_guard());
    assert_eq!(d.take_removal(), Some(String::from("/tmp/d.sock")));
    assert_eq!(d.take_removal(), None);
    assert_eq!(d.fd(), 3);

    let b = UdDatagram::bound_with_drop_guard(8, UdSocketPath::Unnamed);
    assert!(!b.has_drop_guard());
    let f = UdDatagram::bound_with_drop_guard(8, UdSocketPath::File(String::from("x")));
    assert!(f.has_drop_guard());
    assert!(!UdDatagram::bound(9).has_drop_guard());
}

#[test]
fn datagram_fit_decision() {
    assert!(interprocess::datagram::message_fits(10, 10));
    assert!(interprocess::datagram::message_fits(0, 0));
    assert!(!interprocess::datagram::message_fits(11, 10));
}

#[test]
fn peer_addresses() {
    assert_eq!(peer_address(&[]), PeerAddress::Unnamed);
    assert_eq!(peer_address(b"/tmp/a.sock\0\0\0"), PeerAddress::File(b"/tmp/a.sock".to_vec()));
    assert_eq!(peer_address(b"/tmp/b"), PeerAddress::File(b"/tmp/b".to_vec()));
    assert_eq!(peer_address(b"\0name\0x"), PeerAddress::Namespaced(b"name\0x".to_vec()));
}
