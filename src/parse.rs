//! Parsing of an initialized control-message buffer into a sequence of messages.
use crate::cmsg::{encode_message, encode_messages, header_bytes, payload_len_ok, zeros, Cmsg, CmsgModel};
use crate::layout::{
    align_first, align_first_spec, align_gap, cmsg_align_spec, cmsg_len_spec, cmsg_space_spec,
    CMSG_ALIGN_TO, CMSG_HDR_LEN,
};
use vstd::bytes::*;
use vstd::prelude::*;

verus! {

/// One step of the parser at position `p` of the bytes `b`, whose first byte has address residue
/// `mis`: the message whose header is the first aligned one at or after `p`, and the position
/// past its padded extent. None when no header fits, or when the header found is not well formed
/// (a length shorter than a header, a payload past the end, or a payload too long for a message).
pub open spec fn parse_step(b: Seq<u8>, mis: int, p: int) -> Option<(CmsgModel, int)> {
    if !(0 <= p <= b.len()) {
        None
    } else {
        match align_first_spec(mis + p, b.len() - p) {
            None => None,
            Some(fwd) => {
                let h = p + fwd;
                let l = spec_u64_from_le_bytes(b.subrange(h, h + 8)) as int;
                if l < CMSG_HDR_LEN || l > b.len() - h || !payload_len_ok(l - CMSG_HDR_LEN) {
                    None
                } else {
                    Some(
                        (
                            CmsgModel {
                                level: spec_u32_from_le_bytes(b.subrange(h + 8, h + 12)) as i32,
                                cmsg_type: spec_u32_from_le_bytes(b.subrange(h + 12, h + 16)) as i32,
                                data: b.subrange(h + CMSG_HDR_LEN, h + l),
                            },
                            h + cmsg_align_spec(l),
                        ),
                    )
                }
            },
        }
    }
}

/// The messages that the parser yields from position `p` on.
pub open spec fn parse_from(b: Seq<u8>, mis: int, p: int) -> Seq<CmsgModel>
    decreases b.len() - p,
{
    match parse_step(b, mis, p) {
        None => Seq::empty(),
        Some((m, next)) => if p < next <= b.len() {
            seq![m] + parse_from(b, mis, next)
        } else {
            seq![m]
        },
    }
}

/// The messages of a whole buffer.
pub open spec fn parse(b: Seq<u8>, mis: int) -> Seq<CmsgModel> {
    parse_from(b, mis, 0)
}

/// The models of a sequence of messages.
pub open spec fn views<'a>(s: Seq<Cmsg<'a>>) -> Seq<CmsgModel> {
    s.map_values(|c: Cmsg<'a>| c@)
}

pub(crate) proof fn lemma_gap_residue(mis: int, pos: int)
    requires
        0 <= mis,
        0 <= pos,
    ensures
        align_gap((mis + pos % 8) % 8) == align_gap(mis + pos),
{
    assert((mis + pos % 8) % 8 == (mis + pos) % 8) by (nonlinear_arith)
        requires
            0 <= mis,
            0 <= pos,
    ;
}

pub(crate) proof fn lemma_align_past_header(n: int)
    requires
        0 <= n,
    ensures
        cmsg_align_spec(CMSG_HDR_LEN + n) == CMSG_HDR_LEN + cmsg_align_spec(n),
{
    assert((16 + n) % 8 == n % 8) by (nonlinear_arith)
        requires
            0 <= n,
    ;
}

/// A borrowed buffer of initialized, well-formed control messages.
pub struct CmsgRef<'a> {
    buf: &'a [u8],
    misalign: usize,
}

impl<'a> CmsgRef<'a> {
    /// The bytes of the buffer.
    pub closed spec fn bytes(&self) -> Seq<u8> {
        self.buf@
    }

    /// The residue, modulo the header alignment, of the address of the first byte.
    pub closed spec fn misalign(&self) -> int {
        self.misalign as int
    }

    pub closed spec fn wf(&self) -> bool {
        &&& self.misalign < CMSG_ALIGN_TO
        &&& self.buf@.len() <= isize::MAX
    }

    /// The messages that the buffer holds.
    pub open spec fn messages_spec(&self) -> Seq<CmsgModel> {
        parse(self.bytes(), self.misalign())
    }

    /// Wraps `buf`, whose first byte lies at an address with residue `misalign` modulo the
    /// header alignment, for parsing.
    pub fn new(buf: &'a [u8], misalign: usize) -> (r: Self)
        requires
            misalign < CMSG_ALIGN_TO,
            buf@.len() <= isize::MAX,
        ensures
            r.wf(),
            r.bytes() == buf@,
            r.misalign() == misalign,
    {
        CmsgRef { buf, misalign }
    }

    /// The bytes of the buffer, as they are handed to the system when sending.
    pub fn as_bytes(&self) -> (r: &'a [u8])
        ensures
            r@ == self.bytes(),
    {
        self.buf
    }

    /// The residue of the buffer's start address modulo the header alignment.
    pub fn misalign_of(&self) -> (r: usize)
        ensures
            r == self.misalign(),
    {
        self.misalign
    }

    /// The message that follows position `pos`, with the position past it: one step of a lazy
    /// traversal that may be restarted from 0 at any time.
    pub fn next_message(&self, pos: usize) -> (r: Option<(Cmsg<'a>, usize)>)
        requires
            self.wf(),
        ensures
            match parse_step(self.bytes(), self.misalign(), pos as int) {
                None => r is None,
                Some((m, next)) => r matches Some((c, n)) && c@ == m && n == next,
            },
    {
        let len = self.buf.len();
        if pos > len {
            return None;
        }
        let residue = (self.misalign + pos % CMSG_ALIGN_TO) % CMSG_ALIGN_TO;
        proof {
            lemma_gap_residue(self.misalign as int, pos as int);
        }
        match align_first(residue, len - pos) {
            None => None,
            Some(fwd) => {
                let h = pos + fwd;
                let l = u64_from_le_bytes(&self.buf[h..h + 8]);
                let room = len - h;
                if l < CMSG_HDR_LEN as u64 || l > room as u64 {
                    return None;
                }
                let n = l as usize - CMSG_HDR_LEN;
                if n as u64 > u32::MAX as u64 {
                    return None;
                }
                let level = u32_from_le_bytes(&self.buf[h + 8..h + 12]) as i32;
                let cmsg_type = u32_from_le_bytes(&self.buf[h + 12..h + 16]) as i32;
                let data = &self.buf[h + CMSG_HDR_LEN..h + CMSG_HDR_LEN + n];
                let c = Cmsg::new(level, cmsg_type, data);
                let next = h + CMSG_HDR_LEN + crate::layout::align_up(n, CMSG_ALIGN_TO);
                proof {
                    lemma_align_past_header(n as int);
                }
                Some((c, next))
            },
        }
    }

    /// All messages of the buffer, in order.
    pub fn messages(&self) -> (r: Vec<Cmsg<'a>>)
        requires
            self.wf(),
        ensures
            views(r@) == self.messages_spec(),
    {
        let mut out: Vec<Cmsg<'a>> = Vec::new();
        let mut pos: usize = 0;
        let len = self.buf.len();
        loop
            invariant
                self.wf(),
                len == self.bytes().len(),
                pos <= len,
                self.messages_spec() == views(out@) + parse_from(self.bytes(), self.misalign(), pos as int),
            decreases len - pos,
        {
            match self.next_message(pos) {
                None => {
                    assert(views(out@) + parse_from(self.bytes(), self.misalign(), pos as int) =~= views(out@));
                    return out;
                },
                Some((c, next)) => {
                    let ghost old_out = out@;
                    let ghost m = c@;
                    out.push(c);
                    assert(views(out@) =~= views(old_out) + seq![m]);
                    if pos < next && next <= len {
                        assert(views(out@) + parse_from(self.bytes(), self.misalign(), next as int)
                            =~= views(old_out) + (seq![m] + parse_from(self.bytes(), self.misalign(), next as int)));
                        pos = next;
                    } else {
                        assert(views(out@) =~= views(old_out) + seq![m]);
                        return out;
                    }
                },
            }
        }
    }
}

} // verus!

verus! {

/// The length of the encoding of one message.
pub proof fn lemma_encode_message_len(g: int, m: CmsgModel)
    requires
        0 <= g,
    ensures
        header_bytes(cmsg_len_spec(m.data.len() as int), m.level, m.cmsg_type).len() == CMSG_HDR_LEN,
        encode_message(g, m).len() == g + cmsg_space_spec(m.data.len() as int),
{
    lemma_auto_spec_u64_to_from_le_bytes();
    lemma_auto_spec_u32_to_from_le_bytes();
    let n = m.data.len() as int;
    assert(align_gap(n) >= 0);
}

proof fn lemma_i32_through_u32(x: i32)
    ensures
        ((x as u32) as i32) == x,
{
    assert(((x as u32) as i32) == x) by (bit_vector);
}

/// The header of a message written by [`encode_message`] reads back as written.
proof fn lemma_read_encoded(b: Seq<u8>, p: int, g: int, m: CmsgModel)
    requires
        0 <= p,
        0 <= g,
        p + encode_message(g, m).len() <= b.len(),
        b.subrange(p, p + encode_message(g, m).len()) == encode_message(g, m),
        payload_len_ok(m.data.len() as int),
    ensures
        spec_u64_from_le_bytes(b.subrange(p + g, p + g + 8)) as int == cmsg_len_spec(m.data.len() as int),
        spec_u32_from_le_bytes(b.subrange(p + g + 8, p + g + 12)) as i32 == m.level,
        spec_u32_from_le_bytes(b.subrange(p + g + 12, p + g + 16)) as i32 == m.cmsg_type,
        b.subrange(p + g + 16, p + g + 16 + m.data.len()) == m.data,
{
    let n = m.data.len() as int;
    let e = encode_message(g, m);
    let len = cmsg_len_spec(n);
    let l8 = spec_u64_to_le_bytes(len as u64);
    let lv = spec_u32_to_le_bytes(m.level as u32);
    let ty = spec_u32_to_le_bytes(m.cmsg_type as u32);
    lemma_auto_spec_u64_to_from_le_bytes();
    lemma_auto_spec_u32_to_from_le_bytes();
    let hb = header_bytes(len, m.level, m.cmsg_type);
    lemma_encode_message_len(g, m);
    assert(e == zeros(g) + hb + m.data + zeros(align_gap(n)));
    assert forall|i: int| 0 <= i < e.len() implies b[p + i] == #[trigger] e[i] by {
        assert(b.subrange(p, p + e.len())[i] == b[p + i]);
    }
    assert forall|i: int| 0 <= i < 16 implies b[p + g + i] == #[trigger] hb[i] by {
        assert(e[g + i] == hb[i]);
    }
    assert forall|i: int| 0 <= i < n implies b[p + g + 16 + i] == #[trigger] m.data[i] by {
        assert(e[g + 16 + i] == m.data[i]);
    }
    assert(b.subrange(p + g, p + g + 8) =~= l8) by {
        assert forall|i: int| 0 <= i < 8 implies b.subrange(p + g, p + g + 8)[i] == l8[i] by {
            assert(hb[i] == l8[i]);
        }
    }
    assert(b.subrange(p + g + 8, p + g + 12) =~= lv) by {
        assert forall|i: int| 0 <= i < 4 implies b.subrange(p + g + 8, p + g + 12)[i] == lv[i] by {
            assert(hb[8 + i] == lv[i]);
        }
    }
    assert(b.subrange(p + g + 12, p + g + 16) =~= ty) by {
        assert forall|i: int| 0 <= i < 4 implies b.subrange(p + g + 12, p + g + 16)[i] == ty[i] by {
            assert(hb[12 + i] == ty[i]);
        }
    }
    assert(b.subrange(p + g + 16, p + g + 16 + n) =~= m.data);
    assert(len as u64 as int == len);
    lemma_i32_through_u32(m.level);
    lemma_i32_through_u32(m.cmsg_type);
}

#[verifier::rlimit(40)]
/// Parsing from `p` the encoding of `ms` written at `p`, up to the end of the bytes, yields `ms`.
pub proof fn lemma_parse_encoded(b: Seq<u8>, mis: int, p: int, ms: Seq<CmsgModel>)
    requires
        0 <= mis < CMSG_ALIGN_TO,
        0 <= p <= b.len(),
        b.subrange(p, b.len() as int) == encode_messages(mis, p, ms),
        forall|i: int| 0 <= i < ms.len() ==> payload_len_ok(#[trigger] ms[i].data.len() as int),
    ensures
        parse_from(b, mis, p) == ms,
    decreases ms.len(),
{
    if ms.len() == 0 {
        assert(b.subrange(p, b.len() as int).len() == 0);
        assert(parse_step(b, mis, p) is None);
        assert(ms =~= Seq::empty());
    } else {
        let m = ms[0];
        let n = m.data.len() as int;
        let g = align_gap(mis + p);
        let e = encode_message(g, m);
        let q = p + e.len();
        let rest = encode_messages(mis, q, ms.drop_first());
        assert(encode_messages(mis, p, ms) == e + rest);
        assert(payload_len_ok(ms[0].data.len() as int));
        lemma_encode_message_len(g, m);
        assert(e.len() == g + 16 + n + align_gap(n));
        assert(b.subrange(p, q) =~= e) by {
            assert forall|i: int| 0 <= i < e.len() implies b.subrange(p, q)[i] == e[i] by {
                assert(b.subrange(p, b.len() as int)[i] == (e + rest)[i]);
            }
        }
        lemma_read_encoded(b, p, g, m);
        lemma_align_past_header(n);
        let h = p + g;
        assert(g < 8);
        assert(align_first_spec(mis + p, b.len() - p) == Some(g as usize));
        let m2 = CmsgModel {
            level: spec_u32_from_le_bytes(b.subrange(h + 8, h + 12)) as i32,
            cmsg_type: spec_u32_from_le_bytes(b.subrange(h + 12, h + 16)) as i32,
            data: b.subrange(h + CMSG_HDR_LEN, h + cmsg_len_spec(n)),
        };
        assert(m2 == m);
        assert(parse_step(b, mis, p) == Some((m, q)));
        assert(b.subrange(q, b.len() as int) =~= rest) by {
            assert forall|i: int| 0 <= i < rest.len() implies b.subrange(q, b.len() as int)[i] == rest[i] by {
                assert(b.subrange(p, b.len() as int)[e.len() + i] == (e + rest)[e.len() + i]);
            }
        }
        assert forall|i: int| 0 <= i < ms.drop_first().len() implies payload_len_ok(
            #[trigger] ms.drop_first()[i].data.len() as int,
        ) by {
            assert(ms.drop_first()[i] == ms[i + 1]);
        }
        lemma_parse_encoded(b, mis, q, ms.drop_first());
        assert(seq![m] + ms.drop_first() =~= ms);
    }
}

} // verus!
