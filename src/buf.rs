//! Buffers that control messages are written into: one of fixed capacity and one that grows.
//!
//! Each buffer keeps its storage split into an initialized prefix, made of well-formed control
//! messages, and a tail that a receive call may fill.
use crate::cmsg::{encode_message, payload_len_ok, zeros, Cmsg, CmsgModel};
use crate::layout::{
    align_first, align_first_spec, align_gap, cmsg_space_spec, CMSG_ALIGN_TO,
};
use crate::parse::{lemma_encode_message_len, CmsgRef};
use vstd::bytes::*;
use vstd::prelude::*;

verus! {

/// Where a message with `n` payload bytes goes in a buffer of `cap` bytes whose first `len` are
/// initialized and whose start has address residue `mis`: the number of filler bytes before its
/// header, or None if it does not fit.
pub open spec fn placement(mis: int, len: int, cap: int, n: int) -> Option<int> {
    match align_first_spec(mis + len, cap - len) {
        Some(fwd) => if len + fwd + cmsg_space_spec(n) <= cap {
            Some(fwd as int)
        } else {
            None
        },
        None => None,
    }
}

/// The initialized bytes after `m` is appended to `bytes`, in a buffer whose start has address
/// residue `mis`.
pub open spec fn appended(bytes: Seq<u8>, mis: int, m: CmsgModel) -> Seq<u8> {
    bytes + encode_message(align_gap(mis + bytes.len()), m)
}

/// A fixed-capacity buffer has no room for the message.
#[derive(Debug, Clone, Copy, PartialEq, Eq)]
pub struct CapacityError;

/// The encoding of `cmsg` preceded by `gap` filler bytes.
fn encode(gap: usize, cmsg: &Cmsg) -> (r: Vec<u8>)
    requires
        gap < CMSG_ALIGN_TO,
        payload_len_ok(cmsg@.data.len() as int),
    ensures
        r@ == encode_message(gap as int, cmsg@),
{
    let data = cmsg.data();
    let n = data.len();
    let mut v: Vec<u8> = Vec::new();
    let mut i: usize = 0;
    while i < gap
        invariant
            i <= gap,
            v@ == zeros(i as int),
        decreases gap - i,
    {
        v.push(0u8);
        assert(v@ =~= zeros(i + 1));
        i = i + 1;
    }
    let ghost filler = v@;
    let mut len_bytes = u64_to_le_bytes(cmsg.cmsg_len() as u64);
    let mut level_bytes = u32_to_le_bytes(cmsg.cmsg_level() as u32);
    let mut type_bytes = u32_to_le_bytes(cmsg.cmsg_type() as u32);
    v.append(&mut len_bytes);
    v.append(&mut level_bytes);
    v.append(&mut type_bytes);
    let ghost head = v@;
    let mut j: usize = 0;
    while j < n
        invariant
            j <= n,
            n == data@.len(),
            v@ == head + data@.subrange(0, j as int),
        decreases n - j,
    {
        v.push(data[j]);
        assert(data@.subrange(0, j + 1) =~= data@.subrange(0, j as int).push(data@[j as int]));
        assert(v@ =~= head + data@.subrange(0, j + 1));
        j = j + 1;
    }
    let ghost body = v@;
    let pad = crate::layout::align_up(n, CMSG_ALIGN_TO) - n;
    let mut k: usize = 0;
    while k < pad
        invariant
            k <= pad,
            v@ == body + zeros(k as int),
        decreases pad - k,
    {
        v.push(0u8);
        assert(v@ =~= body + zeros(k + 1));
        k = k + 1;
    }
    assert(data@.subrange(0, n as int) =~= data@);
    assert(v@ =~= encode_message(gap as int, cmsg@));
    v
}

/// Copies `src` into `storage` from position `at` on.
fn write_at(storage: &mut Vec<u8>, at: usize, src: &[u8])
    requires
        at + src@.len() <= old(storage)@.len(),
    ensures
        final(storage)@.len() == old(storage)@.len(),
        final(storage)@.subrange(0, at as int) == old(storage)@.subrange(0, at as int),
        final(storage)@.subrange(at as int, at + src@.len()) == src@,
        final(storage)@.subrange(0, at + src@.len()) == old(storage)@.subrange(0, at as int) + src@,
{
    let total = storage.len();
    let mut i: usize = 0;
    while i < src.len()
        invariant
            total == storage@.len(),
            at + src@.len() <= storage@.len(),
            storage@.len() == old(storage)@.len(),
            i <= src@.len(),
            forall|k: int| 0 <= k < at ==> #[trigger] storage@[k] == old(storage)@[k],
            forall|k: int| 0 <= k < i ==> #[trigger] storage@[at + k] == src@[k],
        decreases src@.len() - i,
    {
        storage.set(at + i, src[i]);
        i = i + 1;
    }
    assert(storage@.subrange(0, at as int) =~= old(storage)@.subrange(0, at as int));
    assert forall|k: int| 0 <= k < src@.len() implies storage@.subrange(at as int, at + src@.len())[k]
        == src@[k] by {
        assert(storage@[at + k] == src@[k]);
    }
    assert(storage@.subrange(at as int, at + src@.len()) =~= src@);
    assert(storage@.subrange(0, at + src@.len()) =~= old(storage)@.subrange(0, at as int) + src@);
}

/// A control-message buffer whose capacity is set when it is made; writing past it fails.
pub struct CmsgMutBuf {
    storage: Vec<u8>,
    init_len: usize,
    misalign: usize,
}

impl CmsgMutBuf {
    /// The initialized prefix.
    pub closed spec fn bytes(&self) -> Seq<u8> {
        self.storage@.subrange(0, self.init_len as int)
    }

    /// The number of bytes the buffer can hold.
    pub closed spec fn capacity(&self) -> int {
        self.storage@.len() as int
    }

    /// The residue, modulo the header alignment, of the address of the storage's first byte.
    pub closed spec fn misalign(&self) -> int {
        self.misalign as int
    }

    pub closed spec fn wf(&self) -> bool {
        &&& self.init_len <= self.storage@.len()
        &&& self.storage@.len() <= isize::MAX
        &&& self.misalign < CMSG_ALIGN_TO
    }

    /// What the buffer's invariant gives its users: the initialized prefix fits the storage,
    /// which fits an allocation, and the residue is below the alignment.
    pub proof fn lemma_bounds(&self)
        requires
            self.wf(),
        ensures
            self.bytes().len() <= self.capacity() <= isize::MAX,
            0 <= self.misalign() < CMSG_ALIGN_TO,
    {
    }

    /// An empty buffer of `capacity` bytes whose storage starts at an address with residue
    /// `misalign` modulo the header alignment.
    pub fn new(capacity: usize, misalign: usize) -> (r: Self)
        requires
            capacity <= isize::MAX,
            misalign < CMSG_ALIGN_TO,
        ensures
            r.wf(),
            r.bytes() == Seq::<u8>::empty(),
            r.capacity() == capacity,
            r.misalign() == misalign,
    {
        let mut storage: Vec<u8> = Vec::new();
        let mut i: usize = 0;
        while i < capacity
            invariant
                i <= capacity,
                storage@.len() == i,
            decreases capacity - i,
        {
            storage.push(0u8);
            i = i + 1;
        }
        CmsgMutBuf { storage, init_len: 0, misalign }
    }

    /// The number of initialized bytes.
    pub fn init_len(&self) -> (r: usize)
        requires
            self.wf(),
        ensures
            r == self.bytes().len(),
    {
        self.init_len
    }

    /// The number of bytes the buffer can hold.
    pub fn capacity_of(&self) -> (r: usize)
        ensures
            r == self.capacity(),
    {
        self.storage.len()
    }

    /// Appends `cmsg`, aligned, after the initialized prefix, or fails if it does not fit.
    pub fn add_message(&mut self, cmsg: &Cmsg) -> (r: Result<(), CapacityError>)
        requires
            old(self).wf(),
            payload_len_ok(cmsg@.data.len() as int),
        ensures
            final(self).wf(),
            final(self).capacity() == old(self).capacity(),
            final(self).misalign() == old(self).misalign(),
            r is Ok <==> placement(old(self).misalign(), old(self).bytes().len() as int,
                old(self).capacity(), cmsg@.data.len() as int) is Some,
            r is Ok ==> final(self).bytes() == appended(old(self).bytes(), old(self).misalign(), cmsg@),
            r is Err ==> final(self).bytes() == old(self).bytes(),
    {
        let p = self.init_len;
        let cap = self.storage.len();
        let residue = (self.misalign + p % CMSG_ALIGN_TO) % CMSG_ALIGN_TO;
        proof {
            crate::parse::lemma_gap_residue(self.misalign as int, p as int);
        }
        match align_first(residue, cap - p) {
            None => Err(CapacityError),
            Some(fwd) => {
                let space = cmsg.space_occupied();
                if space > cap - p - fwd {
                    return Err(CapacityError);
                }
                let enc = encode(fwd, cmsg);
                proof {
                    lemma_encode_message_len(fwd as int, cmsg@);
                }
                write_at(&mut self.storage, p, enc.as_slice());
                self.init_len = p + enc.len();
                Ok(())
            },
        }
    }

    /// Forgets every message while keeping the storage, for reuse by another receive call.
    pub fn clear(&mut self)
        requires
            old(self).wf(),
        ensures
            final(self).wf(),
            final(self).bytes() == Seq::<u8>::empty(),
            final(self).capacity() == old(self).capacity(),
            final(self).misalign() == old(self).misalign(),
    {
        self.init_len = 0;
        assert(self.bytes() =~= Seq::<u8>::empty());
    }

    /// The initialized prefix, for parsing or sending.
    pub fn as_cmsg_ref(&self) -> (r: CmsgRef<'_>)
        requires
            self.wf(),
        ensures
            r.wf(),
            r.bytes() == self.bytes(),
            r.misalign() == self.misalign(),
    {
        let s = self.storage.as_slice();
        CmsgRef::new(&s[0..self.init_len], self.misalign)
    }
}

/// Extends `storage` with zeros to `new_len` bytes.
fn grow_to(storage: &mut Vec<u8>, new_len: usize)
    requires
        old(storage)@.len() <= new_len,
    ensures
        final(storage)@.len() == new_len,
        final(storage)@.subrange(0, old(storage)@.len() as int) == old(storage)@,
{
    let ghost start = storage@;
    while storage.len() < new_len
        invariant
            start.len() <= storage@.len() <= new_len,
            storage@.subrange(0, start.len() as int) == start,
        decreases new_len - storage@.len(),
    {
        let ghost before = storage@;
        storage.push(0u8);
        assert(storage@.subrange(0, start.len() as int) =~= before.subrange(0, start.len() as int));
    }
}

/// A control-message buffer whose storage grows as messages are added.
pub struct CmsgVecBuf {
    storage: Vec<u8>,
    init_len: usize,
    misalign: usize,
}

impl CmsgVecBuf {
    /// The initialized prefix.
    pub closed spec fn bytes(&self) -> Seq<u8> {
        self.storage@.subrange(0, self.init_len as int)
    }

    /// The number of bytes the storage holds at present.
    pub closed spec fn capacity(&self) -> int {
        self.storage@.len() as int
    }

    /// The residue, modulo the header alignment, of the address of the storage's first byte.
    pub closed spec fn misalign(&self) -> int {
        self.misalign as int
    }

    pub closed spec fn wf(&self) -> bool {
        &&& self.init_len <= self.storage@.len()
        &&& self.storage@.len() <= isize::MAX
        &&& self.misalign < CMSG_ALIGN_TO
    }

    /// What the buffer's invariant gives its users: the initialized prefix fits the storage,
    /// which fits an allocation, and the residue is below the alignment.
    pub proof fn lemma_bounds(&self)
        requires
            self.wf(),
        ensures
            self.bytes().len() <= self.capacity() <= isize::MAX,
            0 <= self.misalign() < CMSG_ALIGN_TO,
    {
    }

    /// An empty buffer with no storage yet, which will start at an address with residue
    /// `misalign` modulo the header alignment.
    pub fn new(misalign: usize) -> (r: Self)
        requires
            misalign < CMSG_ALIGN_TO,
        ensures
            r.wf(),
            r.bytes() == Seq::<u8>::empty(),
            r.capacity() == 0,
            r.misalign() == misalign,
    {
        let r = CmsgVecBuf { storage: Vec::new(), init_len: 0, misalign };
        assert(r.bytes() =~= Seq::<u8>::empty());
        r
    }

    /// The number of initialized bytes.
    pub fn init_len(&self) -> (r: usize)
        requires
            self.wf(),
        ensures
            r == self.bytes().len(),
    {
        self.init_len
    }

    /// The number of bytes the storage holds at present.
    pub fn capacity_of(&self) -> (r: usize)
        ensures
            r == self.capacity(),
    {
        self.storage.len()
    }

    /// Makes room for at least `additional` bytes after the initialized prefix, at least doubling
    /// the storage when it grows.
    pub fn reserve(&mut self, additional: usize)
        requires
            old(self).wf(),
            old(self).bytes().len() + additional <= isize::MAX,
        ensures
            final(self).wf(),
            final(self).bytes() == old(self).bytes(),
            final(self).misalign() == old(self).misalign(),
            final(self).capacity() >= old(self).capacity(),
            final(self).capacity() >= old(self).bytes().len() + additional,
    {
        let needed = self.init_len + additional;
        let cap = self.storage.len();
        if needed > cap {
            let doubled = if cap <= (isize::MAX as usize) / 2 {
                2 * cap
            } else {
                needed
            };
            let new_cap = if doubled > needed {
                doubled
            } else {
                needed
            };
            let ghost old_storage = self.storage@;
            grow_to(&mut self.storage, new_cap);
            assert(self.bytes() =~= old_storage.subrange(0, self.init_len as int)) by {
                assert forall|k: int| 0 <= k < self.init_len implies self.bytes()[k]
                    == old_storage[k] by {
                    assert(self.storage@.subrange(0, old_storage.len() as int)[k] == self.storage@[k]);
                }
            }
        }
    }

    /// Appends `cmsg`, aligned, after the initialized prefix, growing the storage as needed.
    pub fn add_message(&mut self, cmsg: &Cmsg)
        requires
            old(self).wf(),
            payload_len_ok(cmsg@.data.len() as int),
            old(self).bytes().len() + CMSG_ALIGN_TO + cmsg_space_spec(cmsg@.data.len() as int)
                <= isize::MAX,
        ensures
            final(self).wf(),
            final(self).misalign() == old(self).misalign(),
            final(self).capacity() >= old(self).capacity(),
            final(self).bytes() == appended(old(self).bytes(), old(self).misalign(), cmsg@),
    {
        let p = self.init_len;
        let residue = (self.misalign + p % CMSG_ALIGN_TO) % CMSG_ALIGN_TO;
        proof {
            crate::parse::lemma_gap_residue(self.misalign as int, p as int);
        }
        let gap = crate::layout::align_up(residue, CMSG_ALIGN_TO) - residue;
        let space = cmsg.space_occupied();
        self.reserve(gap + space);
        let cap = self.storage.len();
        let fwd = match align_first(residue, cap - p) {
            Some(f) => f,
            None => {
                assert(false);
                gap
            },
        };
        let enc = encode(fwd, cmsg);
        proof {
            lemma_encode_message_len(fwd as int, cmsg@);
        }
        write_at(&mut self.storage, p, enc.as_slice());
        self.init_len = p + enc.len();
    }

    /// Forgets every message while keeping the storage, for reuse by another receive call.
    pub fn clear(&mut self)
        requires
            old(self).wf(),
        ensures
            final(self).wf(),
            final(self).bytes() == Seq::<u8>::empty(),
            final(self).capacity() == old(self).capacity(),
            final(self).misalign() == old(self).misalign(),
    {
        self.init_len = 0;
        assert(self.bytes() =~= Seq::<u8>::empty());
    }

    /// The initialized prefix, for parsing or sending.
    pub fn as_cmsg_ref(&self) -> (r: CmsgRef<'_>)
        requires
            self.wf(),
        ensures
            r.wf(),
            r.bytes() == self.bytes(),
            r.misalign() == self.misalign(),
    {
        let s = self.storage.as_slice();
        CmsgRef::new(&s[0..self.init_len], self.misalign)
    }
}

/// A buffer that a receive call can append control-message bytes to.
pub trait CmsgMut {
    /// The initialized prefix.
    spec fn filled(&self) -> Seq<u8>;

    /// The residue, modulo the header alignment, of the address of the storage's first byte.
    spec fn base_misalign(&self) -> int;

    /// Whether the buffer's own invariant holds.
    spec fn well_formed(&self) -> bool;

    /// How many more bytes the buffer can take in.
    spec fn room(&self) -> int;

    /// The number of bytes the storage holds at present.
    spec fn capacity_spec(&self) -> int;

    /// The number of bytes in the tail that a receive call may fill: the storage past the
    /// initialized prefix.
    fn uninit_len(&self) -> (r: usize)
        requires
            self.well_formed(),
        ensures
            r == self.capacity_spec() - self.filled().len(),
            r <= self.room(),
    ;

    /// The number of initialized bytes.
    fn filled_len(&self) -> (r: usize)
        requires
            self.well_formed(),
        ensures
            r == self.filled().len(),
    ;

    /// The residue, modulo the header alignment, of the address of the storage's first byte.
    fn misalign_of(&self) -> (r: usize)
        ensures
            r == self.base_misalign(),
    ;

    /// Appends bytes that a receive call produced to the initialized prefix.
    fn add_received(&mut self, received: &[u8])
        requires
            old(self).well_formed(),
            received@.len() <= old(self).room(),
        ensures
            final(self).well_formed(),
            final(self).filled() == old(self).filled() + received@,
            final(self).base_misalign() == old(self).base_misalign(),
    ;
}

impl CmsgMut for CmsgMutBuf {
    open spec fn filled(&self) -> Seq<u8> {
        self.bytes()
    }

    open spec fn base_misalign(&self) -> int {
        self.misalign()
    }

    open spec fn well_formed(&self) -> bool {
        self.wf()
    }

    open spec fn room(&self) -> int {
        self.capacity() - self.bytes().len()
    }

    open spec fn capacity_spec(&self) -> int {
        self.capacity()
    }

    fn uninit_len(&self) -> (r: usize) {
        self.storage.len() - self.init_len
    }

    fn filled_len(&self) -> (r: usize) {
        self.init_len
    }

    fn misalign_of(&self) -> (r: usize) {
        self.misalign
    }

    fn add_received(&mut self, received: &[u8]) {
        let p = self.init_len;
        write_at(&mut self.storage, p, received);
        self.init_len = p + received.len();
    }

}

impl CmsgMut for CmsgVecBuf {
    open spec fn filled(&self) -> Seq<u8> {
        self.bytes()
    }

    open spec fn base_misalign(&self) -> int {
        self.misalign()
    }

    open spec fn well_formed(&self) -> bool {
        self.wf()
    }

    open spec fn room(&self) -> int {
        isize::MAX - self.bytes().len()
    }

    open spec fn capacity_spec(&self) -> int {
        self.capacity()
    }

    fn uninit_len(&self) -> (r: usize) {
        self.storage.len() - self.init_len
    }

    fn filled_len(&self) -> (r: usize) {
        self.init_len
    }

    fn misalign_of(&self) -> (r: usize) {
        self.misalign
    }

    fn add_received(&mut self, received: &[u8]) {
        self.reserve(received.len());
        let p = self.init_len;
        write_at(&mut self.storage, p, received);
        self.init_len = p + received.len();
    }

}

} // verus!
