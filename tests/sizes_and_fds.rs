use interprocess::adapter::{complete_recv, control_for_send, MSG_CTRUNC, MSG_TRUNC};
use interprocess::buf::{CmsgMut, CmsgMutBuf, CmsgVecBuf};
use interprocess::cmsg::Cmsg;
use interprocess::fds::{FdsError, FileDescriptors, SCM_RIGHTS, SOL_SOCKET};
use interprocess::layout::{align_first, align_up, CMSG_ALIGN_TO, CMSG_HDR_LEN};
use interprocess::parse::CmsgRef;

#[test]
fn header_and_space_lengths() {
    let cases: [(usize, usize, usize); 6] =
        [(0, 16, 16), (1, 17, 24), (4, 20, 24), (7, 23, 24), (8, 24, 24), (9, 25, 32)];
    for (n, len, space) in cases {
        let payload = vec![0u8; n];
        let c = Cmsg::new(0, 0, &payload);
        assert_eq!(Cmsg::cmsg_len_for_payload_size(n as u32), len);
        assert_eq!(c.cmsg_len(), len);
        assert_eq!(c.space_occupied(), space);
    }
}

#[test]
fn space_is_padded_header_length_and_monotonic() {
    let mut last_len = 0;
    let mut last_space = 0;
    for n in 0..200u32 {
        let payload = vec![0u8; n as usize];
        let c = Cmsg::new(0, 0, &payload);
        let len = Cmsg::cmsg_len_for_payload_size(n);
        let padding = (8 - len % 8) % 8;
        assert_eq!(c.space_occupied(), len + padding);
        assert!(len >= last_len);
        assert!(c.space_occupied() >= last_space);
        last_len = len;
        last_space = c.space_occupied();
    }
}

#[test]
fn layout_constants_match_the_system() {
    assert_eq!(CMSG_HDR_LEN, std::mem::size_of::<libc::cmsghdr>());
    assert_eq!(CMSG_ALIGN_TO, std::mem::align_of::<libc::cmsghdr>());
    assert_eq!(SOL_SOCKET, libc::SOL_SOCKET);
    assert_eq!(SCM_RIGHTS, libc::SCM_RIGHTS);
    assert_eq!(MSG_TRUNC, libc::MSG_TRUNC);
    assert_eq!(MSG_CTRUNC, libc::MSG_CTRUNC);
    assert_eq!(interprocess::listener::O_NONBLOCK, libc::O_NONBLOCK);
}

#[test]
fn align_up_rounds_to_boundary() {
    assert_eq!(align_up(0, 8), 0);
    assert_eq!(align_up(1, 8), 8);
    assert_eq!(align_up(8, 8), 8);
    assert_eq!(align_up(13, 8), 16);
}

#[test]
fn align_first_offsets() {
    assert_eq!(align_first(0, 16), Some(0));
    assert_eq!(align_first(0, 15), None);
    assert_eq!(align_first(3, 21), Some(5));
    assert_eq!(align_first(3, 20), None);
    assert_eq!(align_first(8, 100), Some(0));
    assert_eq!(align_first(7, 0), None);
}

#[test]
fn clone_unchecked_copies_fields() {
    let payload = [1u8, 2, 3];
    let c = Cmsg::new(4, 5, &payload);
    let d = c.clone_unchecked();
    assert_eq!(c, d);
    assert_eq!(d.data().as_ptr(), payload.as_ptr());
}

#[test]
fn descriptors_round_trip_through_buffer() {
    let sent = vec![3, 4, 5, 1000, -1];
    let set = FileDescriptors::new(sent.clone());
    let payload = set.payload();
    assert_eq!(payload.len(), 4 * sent.len());
    assert_eq!(&payload[0..4], &[3, 0, 0, 0]);
    let mut buf = CmsgVecBuf::new(0);
    buf.add_message(&Cmsg::new(SOL_SOCKET, SCM_RIGHTS, &payload));
    let r = buf.as_cmsg_ref();
    let mut msgs = r.messages();
    assert_eq!(msgs.len(), 1);
    let received = FileDescriptors::from_cmsg(msgs.remove(0)).unwrap();
    assert_eq!(received.len(), sent.len());
    let got: Vec<i32> = (0..received.len()).map(|i| received.get(i)).collect();
    assert_eq!(got, sent);
    let mut sorted = got.clone();
    sorted.sort();
    sorted.dedup();
    assert_eq!(sorted.len(), sent.len());
}

#[test]
fn releasing_some_descriptors_keeps_the_rest() {
    let mut set = FileDescriptors::new(vec![10, 11, 12]);
    assert_eq!(set.take_last(), Some(12));
    assert_eq!(set.len(), 2);
    assert_eq!(set.get(0), 10);
    assert_eq!(set.get(1), 11);
    assert_eq!(set.into_fds(), vec![10, 11]);
    let mut empty = FileDescriptors::new(vec![]);
    assert_eq!(empty.take_last(), None);
}

#[test]
fn descriptors_wrong_kind() {
    let payload = [0u8; 4];
    let r = FileDescriptors::from_cmsg(Cmsg::new(SOL_SOCKET, SCM_RIGHTS + 1, &payload));
    assert_eq!(r.err(), Some(FdsError::WrongKind));
    let r = FileDescriptors::from_cmsg(Cmsg::new(SOL_SOCKET + 5, SCM_RIGHTS, &payload));
    assert_eq!(r.err(), Some(FdsError::WrongKind));
}

#[test]
fn descriptors_partial_payload() {
    let payload = [0u8; 6];
    let r = FileDescriptors::from_cmsg(Cmsg::new(SOL_SOCKET, SCM_RIGHTS, &payload));
    assert_eq!(r.err(), Some(FdsError::PartialDescriptor));
}

#[test]
fn receive_records_counts_and_flags() {
    let mut source = CmsgVecBuf::new(0);
    source.add_message(&Cmsg::new(1, 2, &[7, 7, 7]));
    let control = source.as_cmsg_ref().as_bytes().to_vec();

    let mut abuf = CmsgMutBuf::new(128, 0);
    let ok = complete_recv(&mut abuf, 42, &control, 0);
    assert_eq!(ok.main, 42);
    assert_eq!(ok.ancillary, control.len());
    assert!(!ok.truncated);
    assert!(!ok.ancillary_truncated);
    assert_eq!(abuf.init_len(), control.len());
    let msgs = abuf.as_cmsg_ref().messages();
    assert_eq!(msgs.len(), 1);
    assert_eq!(msgs[0].data(), &[7, 7, 7]);

    let mut vbuf = CmsgVecBuf::new(0);
    let cut = complete_recv(&mut vbuf, 3, &[], MSG_TRUNC | MSG_CTRUNC);
    assert!(cut.truncated);
    assert!(cut.ancillary_truncated);
    assert_eq!(cut.ancillary, 0);
    assert_eq!(vbuf.uninit_len(), vbuf.capacity_of());
}

#[test]
fn send_hands_over_initialized_bytes() {
    let mut buf = CmsgMutBuf::new(100, 0);
    buf.add_message(&Cmsg::new(1, 2, &[1, 2])).unwrap();
    let r = buf.as_cmsg_ref();
    assert_eq!(control_for_send(&r).len(), 24);
    let misaligned = CmsgRef::new(&[0u8; 3], 1);
    assert_eq!(misaligned.misalign_of(), 1);
    assert_eq!(control_for_send(&misaligned), &[0, 0, 0]);
}

#[test]
fn align_up_other_powers_of_two() {
    assert_eq!(align_up(5, 1), 5);
    assert_eq!(align_up(5, 4), 8);
    assert_eq!(align_up(17, 16), 32);
    assert_eq!(align_up(4096, 4096), 4096);
    assert_eq!(align_up(1, 64), 64);
    let mut last = 0;
    for base in 0..300usize {
        for shift in 0..9u32 {
            let align = 1usize << shift;
            let r = align_up(base, align);
            assert_eq!(r % align, 0);
            assert!(base <= r && r < base + align);
            assert_eq!(align_up(r, align), r);
        }
        let r = align_up(base, 32);
        assert!(r >= last);
        last = r;
    }
}

#[test]
fn header_is_in_native_byte_order() {
    let mut buf = CmsgMutBuf::new(64, 0);
    buf.add_message(&Cmsg::new(-3, 258, &[1, 2])).unwrap();
    let r = buf.as_cmsg_ref();
    let bytes = r.as_bytes();
    assert_eq!(&bytes[0..8], &18usize.to_ne_bytes());
    assert_eq!(&bytes[8..12], &(-3i32).to_ne_bytes());
    assert_eq!(&bytes[12..16], &258i32.to_ne_bytes());
}

#[test]
fn receive_buffer_reports_tail_and_residue() {
    let mut fixed = CmsgMutBuf::new(40, 0);
    assert_eq!(fixed.uninit_len(), 40);
    fixed.add_message(&Cmsg::new(1, 1, &[1])).unwrap();
    assert_eq!(fixed.uninit_len(), 16);
    assert_eq!(fixed.filled_len(), 24);
    assert_eq!(fixed.misalign_of(), 0);
    let grow = CmsgVecBuf::new(5);
    assert_eq!(grow.misalign_of(), 5);
    assert_eq!(grow.filled_len(), 0);
}
