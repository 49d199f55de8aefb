use interprocess::buf::{CapacityError, CmsgMut, CmsgMutBuf, CmsgVecBuf};
use interprocess::cmsg::Cmsg;
use interprocess::parse::CmsgRef;

fn triples(r: &CmsgRef<'_>) -> Vec<(i32, i32, Vec<u8>)> {
    r.messages()
        .iter()
        .map(|c| (c.cmsg_level(), c.cmsg_type(), c.data().to_vec()))
        .collect()
}

fn header_offsets(r: &CmsgRef<'_>) -> Vec<usize> {
    let base = r.as_bytes().as_ptr() as usize;
    r.messages()
        .iter()
        .map(|c| c.data().as_ptr() as usize - base - 16)
        .collect()
}

#[test]
fn empty_buffer_parses_to_nothing() {
    let r = CmsgRef::new(&[], 0);
    assert_eq!(r.messages().len(), 0);
    let buf = CmsgMutBuf::new(64, 0);
    assert_eq!(buf.as_cmsg_ref().messages().len(), 0);
    let vbuf = CmsgVecBuf::new(0);
    assert_eq!(vbuf.as_cmsg_ref().messages().len(), 0);
}

#[test]
fn single_message_round_trip_fixed() {
    let payload = [0xAAu8; 4];
    let mut buf = CmsgMutBuf::new(64, 0);
    assert_eq!(buf.add_message(&Cmsg::new(1, 2, &payload)), Ok(()));
    let r = buf.as_cmsg_ref();
    let msgs = r.messages();
    assert_eq!(msgs.len(), 1);
    assert_eq!(msgs[0].cmsg_level(), 1);
    assert_eq!(msgs[0].cmsg_type(), 2);
    assert_eq!(msgs[0].data(), &[0xAA, 0xAA, 0xAA, 0xAA]);
    assert_eq!(msgs[0].data().len(), 4);
    assert_eq!(msgs[0].cmsg_len(), 20);
}

#[test]
fn single_message_round_trip_growable() {
    let payload = [0xAAu8; 4];
    let mut buf = CmsgVecBuf::new(0);
    buf.add_message(&Cmsg::new(1, 2, &payload));
    assert_eq!(triples(&buf.as_cmsg_ref()), vec![(1, 2, vec![0xAA; 4])]);
}

#[test]
fn single_message_wire_bytes() {
    let payload = [0xAAu8; 4];
    let mut buf = CmsgMutBuf::new(64, 0);
    buf.add_message(&Cmsg::new(1, 2, &payload)).unwrap();
    let expected: Vec<u8> = vec![
        20, 0, 0, 0, 0, 0, 0, 0, 1, 0, 0, 0, 2, 0, 0, 0, 0xAA, 0xAA, 0xAA, 0xAA, 0, 0, 0, 0,
    ];
    assert_eq!(buf.as_cmsg_ref().as_bytes(), &expected[..]);
    assert_eq!(buf.init_len(), 24);
}

#[test]
fn many_messages_round_trip() {
    let payloads: Vec<Vec<u8>> = vec![vec![], vec![1], vec![2; 7], vec![3; 8], vec![4; 9], vec![5; 33]];
    for misalign in 0..8usize {
        let mut fixed = CmsgMutBuf::new(512, misalign);
        let mut grow = CmsgVecBuf::new(misalign);
        for (i, p) in payloads.iter().enumerate() {
            let c = Cmsg::new(i as i32, -(i as i32), p);
            fixed.add_message(&c).unwrap();
            grow.add_message(&c);
        }
        let expected: Vec<(i32, i32, Vec<u8>)> = payloads
            .iter()
            .enumerate()
            .map(|(i, p)| (i as i32, -(i as i32), p.clone()))
            .collect();
        assert_eq!(triples(&fixed.as_cmsg_ref()), expected);
        assert_eq!(triples(&grow.as_cmsg_ref()), expected);
    }
}

#[test]
fn alignment_of_small_payloads() {
    let sizes = [0usize, 1, 7, 8, 9];
    for misalign in 0..8usize {
        let mut buf = CmsgVecBuf::new(misalign);
        let payloads: Vec<Vec<u8>> = sizes.iter().map(|&n| vec![0x5A; n]).collect();
        for p in &payloads {
            buf.add_message(&Cmsg::new(7, 9, p));
        }
        let r = buf.as_cmsg_ref();
        // Expected header offsets: the first aligned offset, then each padded extent in turn.
        let mut expected = Vec::new();
        let mut at = (8 - misalign % 8) % 8;
        for &n in &sizes {
            expected.push(at);
            at += 16 + (n + 7) / 8 * 8;
        }
        let offsets = header_offsets(&r);
        assert_eq!(offsets, expected);
        for o in offsets {
            assert_eq!((misalign + o) % 8, 0);
        }
        assert_eq!(buf.init_len(), at);
    }
}

#[test]
fn fixed_buffer_sized_for_one_message() {
    let payload = [0xAAu8; 4];
    let c = Cmsg::new(1, 2, &payload);
    let mut buf = CmsgMutBuf::new(c.space_occupied(), 0);
    assert_eq!(buf.add_message(&c), Ok(()));
    assert_eq!(buf.add_message(&c), Err(CapacityError));
    let empty = Cmsg::new(1, 2, &[]);
    assert_eq!(buf.add_message(&empty), Err(CapacityError));
    assert_eq!(triples(&buf.as_cmsg_ref()), vec![(1, 2, vec![0xAA; 4])]);
}

#[test]
fn fixed_buffer_too_small_for_header() {
    let mut buf = CmsgMutBuf::new(15, 0);
    assert_eq!(buf.add_message(&Cmsg::new(1, 1, &[])), Err(CapacityError));
    assert_eq!(buf.init_len(), 0);
    let mut misaligned = CmsgMutBuf::new(24, 3);
    assert_eq!(misaligned.add_message(&Cmsg::new(1, 1, &[1, 2, 3, 4])), Err(CapacityError));
    let mut misaligned = CmsgMutBuf::new(29, 3);
    assert_eq!(misaligned.add_message(&Cmsg::new(1, 1, &[1, 2, 3, 4])), Ok(()));
}

#[test]
fn cleared_buffer_shows_no_stale_messages() {
    let big = [0x11u8; 40];
    let mut fixed = CmsgMutBuf::new(256, 0);
    fixed.add_message(&Cmsg::new(1, 1, &big)).unwrap();
    fixed.add_message(&Cmsg::new(2, 2, &big)).unwrap();
    let capacity = fixed.capacity_of();
    fixed.clear();
    assert_eq!(fixed.init_len(), 0);
    assert_eq!(fixed.capacity_of(), capacity);
    assert_eq!(fixed.as_cmsg_ref().messages().len(), 0);

    let mut source = CmsgVecBuf::new(0);
    source.add_message(&Cmsg::new(3, 4, &[9, 9]));
    let received = source.as_cmsg_ref().as_bytes().to_vec();
    assert!(fixed.uninit_len() >= received.len());
    fixed.add_received(&received);
    assert_eq!(triples(&fixed.as_cmsg_ref()), vec![(3, 4, vec![9, 9])]);
}

#[test]
fn growable_buffer_reuse_after_clear() {
    let mut buf = CmsgVecBuf::new(0);
    buf.add_message(&Cmsg::new(1, 1, &[0x22; 100]));
    let capacity = buf.capacity_of();
    buf.clear();
    assert_eq!(buf.capacity_of(), capacity);
    buf.add_received(&[]);
    assert_eq!(buf.as_cmsg_ref().messages().len(), 0);
    buf.add_message(&Cmsg::new(5, 6, &[1]));
    assert_eq!(triples(&buf.as_cmsg_ref()), vec![(5, 6, vec![1])]);
}

#[test]
fn growable_reserve_makes_room() {
    let mut buf = CmsgVecBuf::new(0);
    assert_eq!(buf.capacity_of(), 0);
    buf.reserve(100);
    assert!(buf.capacity_of() >= 100);
    assert!(buf.uninit_len() >= 100);
    assert_eq!(buf.init_len(), 0);
}

#[test]
fn parser_stops_at_short_length() {
    // A header whose length is shorter than a header ends the traversal.
    let mut bytes = vec![0u8; 32];
    bytes[0] = 8;
    assert_eq!(CmsgRef::new(&bytes, 0).messages().len(), 0);
}

#[test]
fn parser_stops_at_overlong_length() {
    let mut buf = CmsgMutBuf::new(64, 0);
    buf.add_message(&Cmsg::new(1, 2, &[1, 2, 3])).unwrap();
    let mut bytes = buf.as_cmsg_ref().as_bytes().to_vec();
    bytes.extend_from_slice(&[200, 0, 0, 0, 0, 0, 0, 0, 1, 0, 0, 0, 1, 0, 0, 0]);
    assert_eq!(triples(&CmsgRef::new(&bytes, 0)), vec![(1, 2, vec![1, 2, 3])]);
}

#[test]
fn parser_ignores_tail_too_short_for_header() {
    let mut buf = CmsgMutBuf::new(64, 0);
    buf.add_message(&Cmsg::new(1, 2, &[1])).unwrap();
    let mut bytes = buf.as_cmsg_ref().as_bytes().to_vec();
    bytes.extend_from_slice(&[0xFF; 15]);
    assert_eq!(triples(&CmsgRef::new(&bytes, 0)), vec![(1, 2, vec![1])]);
}

#[test]
fn next_message_steps_and_restarts() {
    let mut buf = CmsgVecBuf::new(0);
    buf.add_message(&Cmsg::new(1, 2, &[1]));
    buf.add_message(&Cmsg::new(3, 4, &[2, 2]));
    let r = buf.as_cmsg_ref();
    let (first, next) = r.next_message(0).unwrap();
    assert_eq!((first.cmsg_level(), first.cmsg_type()), (1, 2));
    assert_eq!(next, 24);
    let (second, end) = r.next_message(next).unwrap();
    assert_eq!(second.data(), &[2, 2]);
    assert_eq!(end, 48);
    assert!(r.next_message(end).is_none());
    let (again, _) = r.next_message(0).unwrap();
    assert_eq!(again.data(), &[1]);
}
