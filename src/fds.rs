//! Control messages that pass file descriptors (`SCM_RIGHTS`), with move-only ownership.
use crate::cmsg::{Cmsg, CmsgModel};
use vstd::bytes::*;
use vstd::prelude::*;

verus! {

/// The socket-level protocol level (`SOL_SOCKET` on Linux).
pub const SOL_SOCKET: i32 = 1;

/// The control-message type that passes descriptors (`SCM_RIGHTS` on Linux).
pub const SCM_RIGHTS: i32 = 1;

/// Size of one descriptor in a payload (an `int`), in bytes.
pub const FD_SIZE: usize = 4;

/// The payload that carries the descriptors `fds`: each one as an `int`, little-endian.
pub open spec fn fd_bytes(fds: Seq<i32>) -> Seq<u8>
    decreases fds.len(),
{
    if fds.len() == 0 {
        Seq::empty()
    } else {
        fd_bytes(fds.drop_last()) + spec_u32_to_le_bytes(fds.last() as u32)
    }
}

/// The descriptors that a payload whose length is a multiple of the descriptor size carries.
pub open spec fn decode_fds(b: Seq<u8>) -> Seq<i32> {
    Seq::new(
        (b.len() as int / (FD_SIZE as int)) as nat,
        |i: int| #[verifier::truncate] (spec_u32_from_le_bytes(b.subrange(4 * i, 4 * i + 4)) as i32),
    )
}

/// Whether a control message is a descriptor-passing one whose payload holds whole descriptors.
pub open spec fn is_fd_message(m: CmsgModel) -> bool {
    &&& m.level == SOL_SOCKET
    &&& m.cmsg_type == SCM_RIGHTS
    &&& m.data.len() as int % (FD_SIZE as int) == 0
}

/// Why a control message cannot be taken as a set of descriptors.
#[derive(Debug, Clone, Copy, PartialEq, Eq)]
pub enum FdsError {
    /// The level or the type is not the descriptor-passing one.
    WrongKind,
    /// The payload ends in part of a descriptor.
    PartialDescriptor,
}

/// A set of owned file descriptors, to be sent or as received.
///
/// The set is their sole owner: it is neither `Clone` nor `Copy`, and it is made from a received
/// control message by consuming that message. It makes no system call: dropping it without
/// handing its descriptors out by [`FileDescriptors::into_fds`] or
/// [`FileDescriptors::take_last`] leaks them, and whoever takes them out closes them.
pub struct FileDescriptors {
    fds: Vec<i32>,
}

impl View for FileDescriptors {
    type V = Seq<i32>;

    closed spec fn view(&self) -> Seq<i32> {
        self.fds@
    }
}

proof fn lemma_fd_bytes_len(fds: Seq<i32>)
    ensures
        fd_bytes(fds).len() == 4 * fds.len(),
    decreases fds.len(),
{
    lemma_auto_spec_u32_to_from_le_bytes();
    if fds.len() > 0 {
        lemma_fd_bytes_len(fds.drop_last());
    }
}

proof fn lemma_fd_bytes_at(fds: Seq<i32>, i: int)
    requires
        0 <= i < fds.len(),
    ensures
        fd_bytes(fds).subrange(4 * i, 4 * i + 4) == spec_u32_to_le_bytes(fds[i] as u32),
    decreases fds.len(),
{
    lemma_auto_spec_u32_to_from_le_bytes();
    let init = fds.drop_last();
    lemma_fd_bytes_len(init);
    let last = spec_u32_to_le_bytes(fds.last() as u32);
    assert(fd_bytes(fds) == fd_bytes(init) + last);
    if i == fds.len() - 1 {
        assert(fd_bytes(fds).subrange(4 * i, 4 * i + 4) =~= last);
    } else {
        lemma_fd_bytes_at(init, i);
        assert(fd_bytes(fds).subrange(4 * i, 4 * i + 4) =~= fd_bytes(init).subrange(4 * i, 4 * i + 4));
    }
}

/// Decoding the payload of a set of descriptors gives back the same descriptors, in order.
pub proof fn fds_round_trip(fds: Seq<i32>)
    ensures
        fd_bytes(fds).len() as int % (FD_SIZE as int) == 0,
        decode_fds(fd_bytes(fds)) == fds,
{
    lemma_auto_spec_u32_to_from_le_bytes();
    lemma_fd_bytes_len(fds);
    let n = fds.len() as int;
    assert((4 * n) / 4 == n && (4 * n) % 4 == 0) by (nonlinear_arith);
    assert(decode_fds(fd_bytes(fds)).len() == n);
    assert forall|i: int| 0 <= i < fds.len() implies #[trigger] decode_fds(fd_bytes(fds))[i] == fds[i] by {
        lemma_fd_bytes_at(fds, i);
        let x = fds[i];
        assert(((x as u32) as i32) == x) by (bit_vector);
        let y = #[verifier::truncate] (x as u32);
        assert(spec_u32_to_le_bytes(y).len() == 4);
        assert(spec_u32_from_le_bytes(spec_u32_to_le_bytes(y)) == y);
        assert(decode_fds(fd_bytes(fds))[i] == spec_u32_from_le_bytes(
            fd_bytes(fds).subrange(4 * i, 4 * i + 4),
        ) as i32);
    }
    assert(decode_fds(fd_bytes(fds)) =~= fds);
}

impl FileDescriptors {
    /// Takes ownership of descriptors that the caller owns, to send them. The caller must not use
    /// them again but through this set.
    pub fn new(fds: Vec<i32>) -> (r: Self)
        ensures
            r@ == fds@,
    {
        FileDescriptors { fds }
    }

    /// The number of descriptors held.
    pub fn len(&self) -> (r: usize)
        ensures
            r == self@.len(),
    {
        self.fds.len()
    }

    /// The descriptor at `i`, still owned by the set.
    pub fn get(&self, i: usize) -> (r: i32)
        requires
            i < self@.len(),
        ensures
            r == self@[i as int],
    {
        self.fds[i]
    }

    /// The payload of a descriptor-passing control message that carries these descriptors.
    pub fn payload(&self) -> (r: Vec<u8>)
        ensures
            r@ == fd_bytes(self@),
    {
        let mut out: Vec<u8> = Vec::new();
        let mut i: usize = 0;
        while i < self.fds.len()
            invariant
                i <= self.fds@.len(),
                out@ == fd_bytes(self.fds@.subrange(0, i as int)),
            decreases self.fds@.len() - i,
        {
            let mut b = u32_to_le_bytes(self.fds[i] as u32);
            let ghost prev = self.fds@.subrange(0, i as int);
            let ghost next = self.fds@.subrange(0, i + 1);
            assert(next.drop_last() =~= prev);
            assert(next.last() == self.fds@[i as int]);
            out.append(&mut b);
            i = i + 1;
        }
        assert(self.fds@.subrange(0, self.fds@.len() as int) =~= self.fds@);
        out
    }

    /// Takes ownership of the descriptors that a received control message carries, consuming
    /// the message.
    pub fn from_cmsg(cmsg: Cmsg) -> (r: Result<Self, FdsError>)
        ensures
            r matches Ok(s) ==> is_fd_message(cmsg@) && s@ == decode_fds(cmsg@.data),
            r matches Err(e) ==> !is_fd_message(cmsg@) && (e == FdsError::WrongKind <==> (
            cmsg@.level != SOL_SOCKET || cmsg@.cmsg_type != SCM_RIGHTS)),
    {
        if cmsg.cmsg_level() != SOL_SOCKET || cmsg.cmsg_type() != SCM_RIGHTS {
            return Err(FdsError::WrongKind);
        }
        let data = cmsg.data();
        if data.len() % FD_SIZE != 0 {
            return Err(FdsError::PartialDescriptor);
        }
        let total = data.len();
        let count = total / FD_SIZE;
        let mut fds: Vec<i32> = Vec::new();
        let mut i: usize = 0;
        while i < count
            invariant
                total == data@.len(),
                count == data@.len() / 4,
                data@.len() % 4 == 0,
                i <= count,
                fds@ == decode_fds(data@).subrange(0, i as int),
            decreases count - i,
        {
            assert(4 * i + 4 <= data@.len()) by (nonlinear_arith)
                requires
                    i < count,
                    count == data@.len() / 4,
            ;
            let fd = #[verifier::truncate] (u32_from_le_bytes(&data[4 * i..4 * i + 4]) as i32);
            fds.push(fd);
            assert(fds@ =~= decode_fds(data@).subrange(0, i + 1));
            i = i + 1;
        }
        assert(decode_fds(data@).subrange(0, count as int) =~= decode_fds(data@));
        Ok(FileDescriptors { fds })
    }

    /// Hands out the last descriptor, whose ownership leaves the set.
    pub fn take_last(&mut self) -> (r: Option<i32>)
        ensures
            old(self)@.len() == 0 ==> r is None && final(self)@ == old(self)@,
            old(self)@.len() > 0 ==> r == Some(old(self)@.last()) && final(self)@
                == old(self)@.drop_last(),
    {
        self.fds.pop()
    }

    /// Hands out every descriptor; the caller becomes their owner.
    pub fn into_fds(self) -> (r: Vec<i32>)
        ensures
            r@ == self@,
    {
        self.fds
    }
}

} // verus!
