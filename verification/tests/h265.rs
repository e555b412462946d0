use bytes::Bytes;
use osaio_proxy::h265::Depacketizer;

fn annex_b(nalu: &[u8]) -> Bytes {
    let mut v = vec![0, 0, 0, 1];
    v.extend_from_slice(nalu);
    Bytes::from(v)
}

#[test]
fn single_units_pass() {
    let mut d = Depacketizer::default();
    assert_eq!(d.push(&[0x40, 0x01, 0xaa]), vec![annex_b(&[0x40, 0x01, 0xaa])]);
    assert!(d.push(&[]).is_empty());
    assert!(d.push(&[0x40]).is_empty());
}

#[test]
fn aggregation_is_taken_apart() {
    let mut d = Depacketizer::default();
    let out = d.push(&[48 << 1, 1, 0, 2, 0x40, 1, 0, 3, 0x42, 1, 9, 0, 0]);
    assert_eq!(out, vec![annex_b(&[0x40, 1]), annex_b(&[0x42, 1, 9]), annex_b(&[])]);
}

#[test]
fn aggregation_stops_at_a_unit_cut_short() {
    let mut d = Depacketizer::default();
    assert_eq!(d.push(&[48 << 1, 1, 0, 1, 7, 0, 9, 1]), vec![annex_b(&[7])]);
    assert!(d.push(&[48 << 1, 1, 0]).is_empty());
}

#[test]
fn a_length_has_its_greater_byte_first() {
    let mut d = Depacketizer::default();
    let mut p = vec![48 << 1, 1, 1, 2];
    p.extend(vec![5u8; 258]);
    assert_eq!(d.push(&p), vec![annex_b(&[5u8; 258])]);
}

#[test]
fn fragments_are_joined() {
    let mut d = Depacketizer::default();
    // A unit of type 19 (header 0x26 0x01) in three fragments.
    assert!(d.push(&[49 << 1, 1, 0x80 | 19, 1, 2]).is_empty());
    assert!(d.push(&[49 << 1, 1, 19, 3]).is_empty());
    assert_eq!(d.push(&[49 << 1, 1, 0x40 | 19, 4]), vec![annex_b(&[0x26, 0x01, 1, 2, 3, 4])]);
    // Nothing is left of it.
    assert!(d.push(&[49 << 1, 1, 0x40 | 19, 4]).is_empty());
}

#[test]
fn layer_bits_of_the_header_are_kept() {
    let mut d = Depacketizer::default();
    assert_eq!(
        d.push(&[0x81 | (49 << 1), 0x7f, 0xc0 | 1, 9]),
        vec![annex_b(&[0x81 | (1 << 1), 0x7f, 9])]
    );
}

#[test]
fn orphan_fragments_are_dropped() {
    let mut d = Depacketizer::default();
    assert!(d.push(&[49 << 1, 1, 19, 3]).is_empty());
    assert!(d.push(&[49 << 1, 1, 0x40 | 19, 3]).is_empty());
    assert!(d.push(&[49 << 1, 1]).is_empty());
}

#[test]
fn a_first_fragment_begins_anew() {
    let mut d = Depacketizer::default();
    assert!(d.push(&[49 << 1, 1, 0x80 | 19, 1]).is_empty());
    assert!(d.push(&[49 << 1, 2, 0x80 | 20, 5]).is_empty());
    assert_eq!(d.push(&[49 << 1, 2, 0x40 | 20, 6]), vec![annex_b(&[0x28, 2, 5, 6])]);
}

#[test]
fn other_packets_leave_a_fragment_pending() {
    let mut d = Depacketizer::default();
    assert!(d.push(&[49 << 1, 1, 0x80 | 19, 1]).is_empty());
    assert_eq!(d.push(&[0x40, 1]), vec![annex_b(&[0x40, 1])]);
    assert_eq!(d.push(&[48 << 1, 1, 0, 1, 8]), vec![annex_b(&[8])]);
    assert_eq!(d.push(&[49 << 1, 1, 0x40 | 19, 2]), vec![annex_b(&[0x26, 1, 1, 2])]);
}

#[test]
fn fragments_are_joined_across_other_packets() {
    let mut d = Depacketizer::default();
    assert!(d.push(&[49 << 1, 1, 0x80 | 20, 7]).is_empty());
    assert!(d.push(&[49 << 1, 1, 0x80 | 19, 1]).is_empty());
    assert_eq!(d.push(&[0x40, 1]), vec![annex_b(&[0x40, 1])]);
    assert!(d.push(&[5]).is_empty());
    assert!(d.push(&[49 << 1, 1, 19, 2]).is_empty());
    assert_eq!(d.push(&[48 << 1, 1, 0, 1, 8, 0, 1, 9]), vec![annex_b(&[8]), annex_b(&[9])]);
    assert_eq!(d.push(&[49 << 1, 1, 0x40 | 19, 3]), vec![annex_b(&[0x26, 1, 1, 2, 3])]);
    assert!(d.push(&[49 << 1, 1, 19, 2]).is_empty());
}

#[test]
fn units_before_an_incomplete_tail_come_out() {
    for tail in [vec![], vec![0], vec![0, 1], vec![0, 3, 1, 2], vec![1, 0, 9]] {
        let mut d = Depacketizer::default();
        let mut p = vec![48 << 1, 1, 0, 2, 6, 7, 0, 1, 8];
        p.extend(tail);
        assert_eq!(d.push(&p), vec![annex_b(&[6, 7]), annex_b(&[8])]);
        p[0] = 0;
        assert_eq!(d.aggregation(&p), vec![annex_b(&[6, 7]), annex_b(&[8])]);
    }
}

#[test]
fn room_is_bounded_by_what_is_pending() {
    let mut d = Depacketizer::default();
    let limit = isize::MAX as usize / 2;
    assert!(d.has_room(limit - 4));
    assert!(!d.has_room(limit - 3));
    d.push(&[49 << 1, 1, 0x80 | 19, 1, 2]);
    assert!(d.has_room(limit - 8));
    assert!(!d.has_room(limit - 7));
    assert!(!d.has_room(usize::MAX));
}
