//! Ancillary-data (control-message) framework for Unix-domain sockets.
//!
//! The library models the operating system's control-message buffer format as plain bytes and
//! offsets: it places, parses and sizes control messages, tracks the initialized part of a
//! receive buffer, and interprets descriptor-passing messages. The system calls themselves are
//! made by the caller, who hands the results back as plain values.
pub mod adapter;
pub mod buf;
pub mod cmsg;
pub mod datagram;
pub mod fds;
pub mod laws;
pub mod layout;
pub mod listener;
pub mod local_socket;
pub mod parse;
pub mod path_guard;
pub mod pipe;
