//! The decisions of the send/receive adapter: what a completed `recvmsg` call means for the
//! caller and for the ancillary buffer. The system calls themselves are made by the caller.
use crate::buf::CmsgMut;
use crate::layout::CMSG_ALIGN_TO;
use crate::parse::CmsgRef;
use vstd::prelude::*;

verus! {

/// `msg_flags` bit: the datagram was longer than the buffers supplied (`MSG_TRUNC` on Linux).
pub const MSG_TRUNC: i32 = 0x20;

/// `msg_flags` bit: control data was discarded for want of room (`MSG_CTRUNC` on Linux).
pub const MSG_CTRUNC: i32 = 0x8;

/// What a successful receive call produced.
#[derive(Debug, Clone, Copy, PartialEq, Eq)]
pub struct ReadAncillarySuccess {
    /// Bytes of main data received.
    pub main: usize,
    /// Bytes of ancillary data received.
    pub ancillary: usize,
    /// The message was larger than the main-data buffers and was cut short.
    pub truncated: bool,
    /// Ancillary data was cut short for want of room in the ancillary buffer.
    pub ancillary_truncated: bool,
}

/// Records a completed receive call: `main` bytes of main data, the ancillary bytes `control`
/// that the system wrote into the buffer's tail, and the `msg_flags` it returned. The ancillary
/// bytes become part of the buffer's initialized prefix. The system writes its first header at
/// the start of the tail, so the tail must start at an aligned address for the parser to find
/// it there.
pub fn complete_recv<B: CmsgMut>(abuf: &mut B, main: usize, control: &[u8], msg_flags: i32) -> (r:
    ReadAncillarySuccess)
    requires
        old(abuf).well_formed(),
        control@.len() <= old(abuf).room(),
        (old(abuf).base_misalign() + old(abuf).filled().len()) % (CMSG_ALIGN_TO as int) == 0,
    ensures
        final(abuf).well_formed(),
        final(abuf).filled() == old(abuf).filled() + control@,
        final(abuf).base_misalign() == old(abuf).base_misalign(),
        r.main == main,
        r.ancillary == control@.len(),
        r.truncated == (msg_flags & MSG_TRUNC != 0),
        r.ancillary_truncated == (msg_flags & MSG_CTRUNC != 0),
{
    abuf.add_received(control);
    ReadAncillarySuccess {
        main,
        ancillary: control.len(),
        truncated: msg_flags & MSG_TRUNC != 0,
        ancillary_truncated: msg_flags & MSG_CTRUNC != 0,
    }
}

/// The control bytes to hand, verbatim, to a send call together with the main data.
pub fn control_for_send<'a>(abuf: &CmsgRef<'a>) -> (r: &'a [u8])
    ensures
        r@ == abuf.bytes(),
{
    abuf.as_bytes()
}

} // verus!
