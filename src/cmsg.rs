//! Control messages: a level, a type and a payload, and their encoding in a buffer.
use crate::layout::{align_gap, align_up, cmsg_len_spec, cmsg_space_spec, CMSG_ALIGN_TO, CMSG_HDR_LEN};
use vstd::bytes::*;
use vstd::prelude::*;

verus! {

/// The mathematical content of a control message.
pub struct CmsgModel {
    pub level: i32,
    pub cmsg_type: i32,
    pub data: Seq<u8>,
}

/// `n` zero bytes.
pub open spec fn zeros(n: int) -> Seq<u8> {
    Seq::new(n as nat, |i: int| 0u8)
}

/// The encoding of a `cmsghdr`: the total length as a `size_t`, then the level and the type as
/// `int`s, all little-endian.
pub open spec fn header_bytes(len: int, level: i32, cmsg_type: i32) -> Seq<u8> {
    spec_u64_to_le_bytes(len as u64) + spec_u32_to_le_bytes(level as u32) + spec_u32_to_le_bytes(
        cmsg_type as u32,
    )
}

/// The bytes that a message occupies when written at a position `gap` bytes short of the next
/// aligned address: alignment filler, header, payload and zero padding.
pub open spec fn encode_message(gap: int, m: CmsgModel) -> Seq<u8> {
    zeros(gap) + header_bytes(cmsg_len_spec(m.data.len() as int), m.level, m.cmsg_type) + m.data
        + zeros(align_gap(m.data.len() as int))
}

/// The bytes that the messages `ms` occupy when written one after the other from position `p` of
/// a buffer whose start has address residue `mis`.
pub open spec fn encode_messages(mis: int, p: int, ms: Seq<CmsgModel>) -> Seq<u8>
    decreases ms.len(),
{
    if ms.len() == 0 {
        Seq::empty()
    } else {
        let e = encode_message(align_gap(mis + p), ms[0]);
        e + encode_messages(mis, p + e.len(), ms.drop_first())
    }
}

/// A control message with a borrowed payload.
///
/// It is deliberately neither `Clone` nor `Copy`: some messages carry ownership of resources,
/// and a copy would let two owners release them. See [`Cmsg::clone_unchecked`].
#[derive(Debug, PartialEq, Eq)]
pub struct Cmsg<'a> {
    cmsg_level: i32,
    cmsg_type: i32,
    data: &'a [u8],
}

impl<'a> View for Cmsg<'a> {
    type V = CmsgModel;

    closed spec fn view(&self) -> CmsgModel {
        CmsgModel { level: self.cmsg_level, cmsg_type: self.cmsg_type, data: self.data@ }
    }
}

/// Whether a payload of `n` bytes can be sent: its length fits a `c_uint` and the room it takes
/// in a buffer fits a `usize`.
pub open spec fn payload_len_ok(n: int) -> bool {
    n <= u32::MAX && cmsg_space_spec(n) <= usize::MAX
}

impl<'a> Cmsg<'a> {
    /// Constructs a control message with the given level, type and payload.
    ///
    /// The payload is not checked against the level and type: the caller answers for it being a
    /// valid encoding of such a message, as the operating system documents it.
    pub fn new(cmsg_level: i32, cmsg_type: i32, data: &'a [u8]) -> (r: Self)
        requires
            payload_len_ok(data@.len() as int),
        ensures
            r@ == (CmsgModel { level: cmsg_level, cmsg_type, data: data@ }),
    {
        Cmsg { cmsg_level, cmsg_type, data }
    }

    /// The `cmsg_len` of a control message with a payload of the given size.
    pub fn cmsg_len_for_payload_size(payload_size: u32) -> (r: usize)
        requires
            cmsg_len_spec(payload_size as int) <= usize::MAX,
        ensures
            r == cmsg_len_spec(payload_size as int),
    {
        CMSG_HDR_LEN + payload_size as usize
    }

    /// The `cmsg_len` of this control message.
    pub fn cmsg_len(&self) -> (r: usize)
        requires
            payload_len_ok(self@.data.len() as int),
        ensures
            r == cmsg_len_spec(self@.data.len() as int),
    {
        Self::cmsg_len_for_payload_size(self.data.len() as u32)
    }

    /// The level of the control message.
    pub fn cmsg_level(&self) -> (r: i32)
        ensures
            r == self@.level,
    {
        self.cmsg_level
    }

    /// The type of the control message.
    pub fn cmsg_type(&self) -> (r: i32)
        ensures
            r == self@.cmsg_type,
    {
        self.cmsg_type
    }

    /// The payload of the control message.
    pub fn data(&self) -> (r: &'a [u8])
        ensures
            r@ == self@.data,
    {
        self.data
    }

    /// The room the message takes in a control-message buffer: header, payload and padding.
    pub fn space_occupied(&self) -> (r: usize)
        requires
            payload_len_ok(self@.data.len() as int),
        ensures
            r == cmsg_space_spec(self@.data.len() as int),
    {
        let n = self.data.len();
        CMSG_HDR_LEN + align_up(n, CMSG_ALIGN_TO)
    }

    /// Duplicates the message, payload slice included, without regard to what it owns.
    ///
    /// The caller answers for no resource being released twice: the message copied must not be
    /// interpreted for ownership once the copy is.
    pub fn clone_unchecked(&self) -> (r: Self)
        ensures
            r@ == self@,
    {
        Cmsg { cmsg_level: self.cmsg_level, cmsg_type: self.cmsg_type, data: self.data }
    }
}

} // verus!
