//! Properties that relate the sizing functions, the builders and the parser.
use crate::buf::{appended, placement};
use crate::cmsg::{encode_message, encode_messages, payload_len_ok, CmsgModel};
use crate::fds::{decode_fds, fd_bytes, fds_round_trip, is_fd_message, SCM_RIGHTS, SOL_SOCKET};
use crate::layout::{align_first_spec, align_gap, cmsg_align_spec, cmsg_len_spec, cmsg_space_spec, CMSG_ALIGN_TO};
use crate::parse::{lemma_encode_message_len, lemma_parse_encoded, parse};
use vstd::prelude::*;

verus! {

/// Writing the messages `ms` and then `m` gives the bytes of `ms` followed by `m` placed at the
/// first aligned position after them.
pub proof fn lemma_encode_push(mis: int, p: int, ms: Seq<CmsgModel>, m: CmsgModel)
    requires
        0 <= p,
    ensures
        encode_messages(mis, p, ms.push(m)) == encode_messages(mis, p, ms) + encode_message(
            align_gap(mis + p + encode_messages(mis, p, ms).len()),
            m,
        ),
    decreases ms.len(),
{
    if ms.len() == 0 {
        assert(ms.push(m).drop_first() =~= Seq::<CmsgModel>::empty());
        assert(ms.push(m)[0] == m);
        let e = encode_message(align_gap(mis + p), m);
        lemma_encode_message_len(align_gap(mis + p), m);
        assert(encode_messages(mis, p + e.len(), Seq::<CmsgModel>::empty()) == Seq::<u8>::empty());
        assert(encode_messages(mis, p, ms) == Seq::<u8>::empty());
        assert(encode_messages(mis, p, ms.push(m)) =~= encode_message(align_gap(mis + p), m));
    } else {
        let e = encode_message(align_gap(mis + p), ms[0]);
        lemma_encode_message_len(align_gap(mis + p), ms[0]);
        assert(ms.push(m).drop_first() =~= ms.drop_first().push(m));
        assert(ms.push(m)[0] == ms[0]);
        lemma_encode_push(mis, p + e.len(), ms.drop_first(), m);
        let tail = encode_messages(mis, p + e.len(), ms.drop_first());
        assert(encode_messages(mis, p, ms) == e + tail);
        assert(encode_messages(mis, p, ms.push(m)) == e + encode_messages(mis, p + e.len(), ms.drop_first().push(m)));
        assert(encode_messages(mis, p, ms.push(m)) =~= encode_messages(mis, p, ms) + encode_message(
            align_gap(mis + p + encode_messages(mis, p, ms).len()),
            m,
        ));
    }
}

/// Adding the messages `ms` one by one to an empty buffer yields `encode_messages(mis, 0, ms)`:
/// appending one more message extends that encoding by the message.
pub proof fn building_appends(mis: int, ms: Seq<CmsgModel>, m: CmsgModel)
    ensures
        appended(encode_messages(mis, 0, ms), mis, m) == encode_messages(mis, 0, ms.push(m)),
{
    lemma_encode_push(mis, 0, ms, m);
}

/// Round trip: the bytes that a buffer holds after the messages `ms` are added to it, empty,
/// parse back to `ms`, with the same levels, types, payloads and order.
pub proof fn round_trip(mis: int, ms: Seq<CmsgModel>)
    requires
        0 <= mis < CMSG_ALIGN_TO,
        forall|i: int| 0 <= i < ms.len() ==> payload_len_ok(#[trigger] ms[i].data.len() as int),
    ensures
        parse(encode_messages(mis, 0, ms), mis) == ms,
{
    let b = encode_messages(mis, 0, ms);
    assert(b.subrange(0, b.len() as int) =~= b);
    lemma_parse_encoded(b, mis, 0, ms);
}

/// Round trip over a buffer's history: if `states[0]` is an empty buffer's bytes and each
/// `states[i + 1]` is what `add_message` leaves after appending `ms[i]` to `states[i]`, then the
/// last state parses to exactly `ms`: same count, levels, types, payloads and order.
pub proof fn built_buffer_parses(mis: int, ms: Seq<CmsgModel>, states: Seq<Seq<u8>>)
    requires
        0 <= mis < CMSG_ALIGN_TO,
        forall|i: int| 0 <= i < ms.len() ==> payload_len_ok(#[trigger] ms[i].data.len() as int),
        states.len() == ms.len() + 1,
        states[0] == Seq::<u8>::empty(),
        forall|i: int|
            0 <= i < ms.len() ==> #[trigger] states[i + 1] == appended(states[i], mis, ms[i]),
    ensures
        parse(states[ms.len() as int], mis) == ms,
{
    assert forall|k: int| 0 <= k <= ms.len() implies #[trigger] states[k] == encode_messages(
        mis,
        0,
        ms.subrange(0, k),
    ) by {
        lemma_states_encode(mis, ms, states, k);
    }
    assert(ms.subrange(0, ms.len() as int) =~= ms);
    round_trip(mis, ms);
}

proof fn lemma_states_encode(mis: int, ms: Seq<CmsgModel>, states: Seq<Seq<u8>>, k: int)
    requires
        0 <= k <= ms.len(),
        states.len() == ms.len() + 1,
        states[0] == Seq::<u8>::empty(),
        forall|i: int|
            0 <= i < ms.len() ==> #[trigger] states[i + 1] == appended(states[i], mis, ms[i]),
    ensures
        states[k] == encode_messages(mis, 0, ms.subrange(0, k)),
    decreases k,
{
    if k == 0 {
        assert(ms.subrange(0, 0) =~= Seq::<CmsgModel>::empty());
    } else {
        lemma_states_encode(mis, ms, states, k - 1);
        assert(states[(k - 1) + 1] == appended(states[k - 1], mis, ms[k - 1]));
        assert(ms.subrange(0, k) =~= ms.subrange(0, k - 1).push(ms[k - 1]));
        building_appends(mis, ms.subrange(0, k - 1), ms[k - 1]);
    }
}

/// Size consistency: the room a message takes is its header length rounded up to the
/// alignment, and the header length does not decrease as the payload grows.
pub proof fn size_consistency(n: int, n2: int)
    requires
        0 <= n <= n2,
    ensures
        cmsg_space_spec(n) == cmsg_len_spec(n) + align_gap(cmsg_len_spec(n)),
        cmsg_space_spec(n) == cmsg_align_spec(cmsg_len_spec(n)),
        cmsg_len_spec(n) <= cmsg_len_spec(n2),
        cmsg_space_spec(n) <= cmsg_space_spec(n2),
        cmsg_space_spec(n) % (CMSG_ALIGN_TO as int) == 0,
{
    crate::parse::lemma_align_past_header(n);
    assert(cmsg_align_spec(n) <= cmsg_align_spec(n2)) by (nonlinear_arith)
        requires
            0 <= n <= n2,
            cmsg_align_spec(n) == n + (8 - n % 8) % 8,
            cmsg_align_spec(n2) == n2 + (8 - n2 % 8) % 8,
    ;
}

/// Capacity boundary: an aligned buffer of exactly the room one message takes accepts that
/// message and then no other.
pub proof fn capacity_boundary(n: int, n2: int)
    requires
        0 <= n,
        0 <= n2,
    ensures
        placement(0, 0, cmsg_space_spec(n), n) == Some(0int),
        placement(0, cmsg_space_spec(n), cmsg_space_spec(n), n2) is None,
{
    assert(align_gap(0) == 0);
    assert(align_first_spec(0, cmsg_space_spec(n)) == Some(0usize));
    assert(align_first_spec(cmsg_space_spec(n), 0) is None);
}

/// Buffer reuse: once a buffer is cleared, the bytes a receive call hands it are all that a
/// parser sees, whatever the buffer held before.
pub proof fn no_stale_bytes(cleared: Seq<u8>, received: Seq<u8>, after: Seq<u8>, mis: int)
    requires
        cleared == Seq::<u8>::empty(),
        after == cleared + received,
    ensures
        after == received,
        parse(after, mis) == parse(received, mis),
{
    assert(after =~= received);
}

/// Alignment: a message appended after `len` initialized bytes of a buffer whose start has
/// address residue `mis` has its header at an aligned address, less than one alignment unit
/// past the end of those bytes.
pub proof fn header_aligned(mis: int, len: int)
    requires
        0 <= mis,
        0 <= len,
    ensures
        (mis + len + align_gap(mis + len)) % (CMSG_ALIGN_TO as int) == 0,
        0 <= align_gap(mis + len) < CMSG_ALIGN_TO,
{
}

/// Descriptor round trip: the descriptors `fds`, written as a descriptor-passing message into an
/// empty buffer, come back from parsing it as one such message that carries exactly `fds`; so
/// distinct descriptors come back distinct, each to be released once.
pub proof fn descriptors_round_trip(mis: int, fds: Seq<i32>)
    requires
        0 <= mis < CMSG_ALIGN_TO,
        payload_len_ok(fd_bytes(fds).len() as int),
    ensures
        ({
            let m = CmsgModel { level: SOL_SOCKET, cmsg_type: SCM_RIGHTS, data: fd_bytes(fds) };
            let parsed = parse(encode_messages(mis, 0, seq![m]), mis);
            &&& parsed.len() == 1
            &&& is_fd_message(parsed[0])
            &&& decode_fds(parsed[0].data) == fds
            &&& (fds.no_duplicates() ==> decode_fds(parsed[0].data).no_duplicates())
        }),
{
    let m = CmsgModel { level: SOL_SOCKET, cmsg_type: SCM_RIGHTS, data: fd_bytes(fds) };
    fds_round_trip(fds);
    assert(seq![m][0] == m);
    round_trip(mis, seq![m]);
}

} // verus!
