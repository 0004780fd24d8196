use mtproto::header::{build_unencrypted_message, ExternalHeader};
use mtproto::network::{abridged_payload_len, prepare_abridged_payload, ABRIDGED_EXTENDED_LENGTH};
use mtproto::packets::req_pq_multi::ReqPQMulti;
use mtproto::handshake::read_at;
use mtproto::traits::tl_object::TLObject;

#[test]
fn msg_ids_within_a_second_step_by_four() {
    let mut h = ExternalHeader::new(&[0; 8]);
    let a = h.next_msg_id_at(1_700_000_000);
    let b = h.next_msg_id_at(1_700_000_000);
    let c = h.next_msg_id_at(1_700_000_000);
    assert_eq!(a, 1_700_000_000u64 << 32);
    assert_eq!(b, a + 4);
    assert_eq!(c, a + 8);
    let d = h.next_msg_id_at(1_700_000_001);
    assert_eq!(d, 1_700_000_001u64 << 32);
    assert!(d > c);
    for id in [a, b, c, d] {
        assert_eq!(id % 4, 0);
    }
}

#[test]
fn msg_id_in_a_new_second_restarts_the_offset() {
    let mut h = ExternalHeader::new(&[1; 8]);
    h.next_msg_id_at(5);
    h.next_msg_id_at(5);
    assert_eq!(h.next_msg_id_at(4), 4u64 << 32);
}

#[test]
fn unencrypted_message_layout() {
    let body = vec![0xf1, 0x8e, 0x7e, 0xbe];
    let msg = build_unencrypted_message(&[1, 2, 3, 4, 5, 6, 7, 8], 0x0102030405060708, &body);
    assert_eq!(
        msg,
        vec![1, 2, 3, 4, 5, 6, 7, 8, 8, 7, 6, 5, 4, 3, 2, 1, 4, 0, 0, 0, 0xf1, 0x8e, 0x7e, 0xbe]
    );
}

#[test]
fn wrapped_packet_reads_back() {
    let mut h = ExternalHeader::new(&[0; 8]);
    let mut packet = ReqPQMulti { nonce: 0x1234 };
    let wrapped = h.wrap_packet(&mut packet).expect("the clock reads a time after 1970");
    assert_eq!(wrapped.len(), 20 + 20);
    assert_eq!(&wrapped[..8], &[0; 8]);
    assert_eq!(&wrapped[16..20], &[20, 0, 0, 0]);
    let msg_id = u64::from_le_bytes(wrapped[8..16].try_into().unwrap());
    assert_eq!(msg_id % 4, 0);
    assert_eq!(&wrapped[20..], &packet.to_bytes()[..]);
    let back: ReqPQMulti = read_at(&wrapped, 20).unwrap();
    assert_eq!(back.nonce, 0x1234);
    let second = h.wrap_packet(&mut packet).unwrap();
    let msg_id2 = u64::from_le_bytes(second[8..16].try_into().unwrap());
    assert!(msg_id2 > msg_id);
}

#[test]
fn read_at_needs_the_offset() {
    assert!(read_at::<i32>(&[1, 2, 3], 4).is_none());
    assert_eq!(read_at::<i32>(&[9, 9, 1, 0, 0, 0], 2), Some(1));
}

#[test]
fn abridged_short_frame() {
    let payload = vec![7u8; 40];
    let framed = prepare_abridged_payload(&payload);
    assert_eq!(framed[0], 10);
    assert_eq!(&framed[1..], &payload[..]);
    assert_eq!(abridged_payload_len(framed[0], &[0, 0, 0]), 40);
}

#[test]
fn abridged_long_frame() {
    let payload = vec![1u8; 4 * 300];
    let framed = prepare_abridged_payload(&payload);
    assert_eq!(&framed[..4], &[127, 44, 1, 0]);
    assert_eq!(framed.len(), 4 + 1200);
    assert_eq!(framed[0], ABRIDGED_EXTENDED_LENGTH);
    assert_eq!(abridged_payload_len(framed[0], &[framed[1], framed[2], framed[3]]), 1200);
    let payload = vec![1u8; 4 * 127];
    assert_eq!(&prepare_abridged_payload(&payload)[..4], &[127, 127, 0, 0]);
    let payload = vec![1u8; 4 * 126];
    assert_eq!(prepare_abridged_payload(&payload)[0], 126);
}

#[test]
fn msg_id_for_clock_readings_out_of_range() {
    let mut h = ExternalHeader::new(&[0; 8]);
    assert_eq!(h.next_msg_id_for_clock(-1), None);
    assert_eq!(h.next_msg_id_for_clock(1i64 << 32), None);
    assert_eq!(h.next_msg_id_for_clock(7), Some(7u64 << 32));
    assert_eq!(h.next_msg_id_for_clock(-5), None);
    // the header is unchanged by a failed reading
    assert_eq!(h.next_msg_id_for_clock(7), Some((7u64 << 32) + 4));
    assert_eq!(h.next_msg_id_for_clock(u32::MAX as i64), Some((u32::MAX as u64) << 32));
}

#[test]
fn wrap_packet_for_a_clock_reading() {
    let mut h = ExternalHeader::new(&[9; 8]);
    let mut packet = ReqPQMulti { nonce: 2 };
    let wrapped = h.wrap_packet_for_clock(&mut packet, 3).unwrap();
    let mut expected = vec![9u8; 8];
    expected.extend_from_slice(&(3u64 << 32).to_le_bytes());
    expected.extend_from_slice(&[20, 0, 0, 0]);
    expected.extend(packet.to_bytes());
    assert_eq!(wrapped, expected);
    let again = h.wrap_packet_for_clock(&mut packet, 3).unwrap();
    assert_eq!(&again[8..16], &((3u64 << 32) + 4).to_le_bytes());
    assert!(h.wrap_packet_for_clock(&mut packet, -1).is_none());
    let later = h.wrap_packet_for_clock(&mut packet, 4).unwrap();
    assert_eq!(&later[8..16], &(4u64 << 32).to_le_bytes());
}

#[test]
fn system_clock_message_ids_are_aligned_and_grow() {
    let mut h = ExternalHeader::new(&[3; 8]);
    let a = h.next_msg_id().expect("the system clock reads a time after 1970");
    let b = h.next_msg_id().unwrap();
    assert_eq!(a % 4, 0);
    assert_eq!(b % 4, 0);
    assert!(b > a);
}

#[test]
fn header_invariant_holds() {
    let mut h = ExternalHeader::new(&[0; 8]);
    h.offset_invariant();
    h.next_msg_id_at(1);
    h.next_msg_id_at(1);
    h.offset_invariant();
}
