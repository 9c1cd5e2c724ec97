use flight_planner::ident::{
    build_id, frame_payload, decode_extended, decode_standard, encode_identifier, split_identifier, CanIdentifier,
    IdentifierContents, TRANSMITTER_ID,
};

fn header(prio: u8, rec: u8, port: u8, cmd: u8, trans: u8, s: bool, e: bool, frg: u8) -> IdentifierContents {
    IdentifierContents { prio, rec, port, cmd, trans, start_bit: s, end_bit: e, frg_count: frg }
}

#[test]
fn encode_reply_header_exact_value() {
    let h = header(3, 2, 0, 0, 1, true, true, 0);
    assert_eq!(encode_identifier(&h), 0x0C80_00E0);
}

#[test]
fn encode_every_field_at_its_maximum() {
    let h = header(7, 15, 7, 255, 15, true, true, 31);
    assert_eq!(encode_identifier(&h), 0x1FFF_FFFF);
}

#[test]
fn identifier_round_trip_over_many_headers() {
    for prio in 0..8u8 {
        for rec in [0u8, 1, 9, 15] {
            for port in [0u8, 3, 7] {
                for cmd in [0u8, 2, 0x80, 255] {
                    for frg in [0u8, 1, 17, 31] {
                        for (s, e) in [(false, false), (true, false), (false, true), (true, true)] {
                            let h = header(prio, rec, port, cmd, 5, s, e, frg);
                            let raw = encode_identifier(&h);
                            assert!(raw <= 0x1FFF_FFFF);
                            assert_eq!(decode_extended(raw), h);
                        }
                    }
                }
            }
        }
    }
}

#[test]
fn decode_extended_known_value() {
    let h = decode_extended(0x0C80_00E0);
    assert_eq!(h, header(3, 2, 0, 0, 1, true, true, 0));
}

#[test]
fn decode_standard_reads_low_fields() {
    // transmitter 3, end marker alone above the fragment number
    let h = decode_standard(0x20 | 0x05);
    assert_eq!(h, header(0, 0, 0, 0, 0, false, true, 5));
    let h = decode_standard((3 << 7) | 0x40 | 0x20 | 7);
    assert_eq!(h.trans, 3);
    assert_eq!(h.frg_count, 7);
    assert!(h.start_bit);
    assert!(h.end_bit);
    let h = decode_standard(0x0E0);
    assert!(h.start_bit && h.end_bit);
    assert_eq!(h.trans, 1);
    assert_eq!(h.frg_count, 0);
    assert_eq!(split_identifier(CanIdentifier::Standard(0x25)), decode_standard(0x25));
    assert_eq!(split_identifier(CanIdentifier::Extended(0x0C80_00E0)), decode_extended(0x0C80_00E0));
}

#[test]
fn built_frame_splits_back_into_its_header() {
    let data = [1u8, 2, 3, 4, 5, 6, 7, 8];
    let frame = build_id(5, 9, 3, 0x42, true, false, 12, &data);
    let h = IdentifierContents::frame_splitter(&frame);
    assert_eq!(h, header(5, 9, 3, 0x42, TRANSMITTER_ID, true, false, 12));
    assert!(frame.is_extended());
    assert_eq!(&frame.data().unwrap()[..], &data[..]);
}

#[test]
fn standard_frame_splits_with_compact_table() {
    let id = bxcan::StandardId::new(0x1A5).unwrap();
    let frame = bxcan::Frame::new_data(id, [0u8; 8]);
    let h = IdentifierContents::frame_splitter(&frame);
    assert_eq!(h, decode_standard(0x1A5));
    assert_eq!(h.trans, 3);
}

#[test]
fn compact_flags_read_from_their_own_bits() {
    let id = bxcan::StandardId::new(0x0E0).unwrap();
    let frame = bxcan::Frame::new_data(id, [0u8; 8]);
    let h = IdentifierContents::frame_splitter(&frame);
    assert!(h.start_bit && h.end_bit);
}

#[test]
fn payload_is_padded_to_eight_bytes() {
    let id = bxcan::ExtendedId::new(0x123).unwrap();
    let frame = bxcan::Frame::new_data(id, [9u8, 8, 7]);
    assert_eq!(frame_payload(&frame), Some([9, 8, 7, 0, 0, 0, 0, 0]));
    let full = build_id(1, 1, 3, 2, true, true, 0, &[1, 2, 3, 4, 5, 6, 7, 8]);
    assert_eq!(frame_payload(&full), Some([1, 2, 3, 4, 5, 6, 7, 8]));
    let remote = bxcan::Frame::new_remote(id, 2);
    assert_eq!(frame_payload(&remote), None);
}
