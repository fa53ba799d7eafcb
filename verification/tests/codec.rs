use sonar::checksum::{checksum, sum_big_endian_words};
use sonar::icmp::{ICMPPacket, IcmpError};

#[test]
fn word_sum_keeps_its_carries() {
    // The raw sum is not folded: two all-ones words exceed 16 bits.
    assert_eq!(sum_big_endian_words(&[0xFF, 0xFF, 0xFF, 0xFF]), 0x1FFFE);
    assert_eq!(sum_big_endian_words(&[]), 0);
    assert_eq!(sum_big_endian_words(&[0x45, 0x00]), 0x4500);
    // An odd trailing byte is the high byte of a final word.
    assert_eq!(sum_big_endian_words(&[0xAB, 0xCD, 0x01]), 0xABCD + 0x0100);
}

#[test]
fn checksum_of_empty_buffer_is_all_ones() {
    assert_eq!(checksum(&[]), 0xFFFF);
}

#[test]
fn checksum_of_one_word() {
    assert_eq!(checksum(&[0x45, 0x00]), !0x4500u16);
}

#[test]
fn checksum_odd_byte_is_high_byte_of_last_word() {
    // A single byte counts as the high byte of a trailing word.
    assert_eq!(checksum(&[0x01]), !0x0100u16);
    assert_eq!(checksum(&[0xAB, 0xCD, 0x01]), !(0xABCDu16.wrapping_add(0x0100)));
}

#[test]
fn checksum_folds_carry() {
    // 0xFFFF + 0xFFFF = 0x1FFFE; folding gives 0xFFFF, whose complement is 0.
    assert_eq!(checksum(&[0xFF, 0xFF, 0xFF, 0xFF]), 0);
}

#[test]
fn checksum_self_consistency_on_a_frame() {
    // Computing the checksum with the field zeroed and writing it back into
    // bytes 2-3 yields a buffer whose own checksum is zero.
    let mut frame: Vec<u8> = vec![8, 0, 0, 0, 0x12, 0x34, 0x00, 0x01, 0xDE, 0xAD, 0xBE, 0xEF];
    let c = checksum(&frame);
    frame[2] = (c >> 8) as u8;
    frame[3] = (c & 0xFF) as u8;
    assert_eq!(checksum(&frame), 0);
}

#[test]
fn calculate_checksum_exact_value() {
    let packet = ICMPPacket {
        typ: 8,
        code: 0,
        checksum: 0,
        ident: 0x1234,
        sequence: 1,
        payload: Vec::new(),
    };
    // Words: 0x0800 + 0x0000 + 0x1234 + 0x0001 = 0x1A35.
    assert_eq!(packet.calculate_checksum(), !0x1A35u16);
}

#[test]
fn decode_short_buffer_is_invalid_size() {
    assert!(matches!(ICMPPacket::decode(&[]), Err(IcmpError::InvalidSize)));
    assert!(matches!(ICMPPacket::decode(&[0; 7]), Err(IcmpError::InvalidSize)));
}

#[test]
fn decode_rejects_nonzero_type_or_code() {
    // An otherwise well-formed frame is rejected unless type and code are 0.
    let mut buf = [0u8; 16];
    buf[0] = 8;
    assert!(matches!(ICMPPacket::decode(&buf), Err(IcmpError::InvalidPacket)));
    buf[0] = 0;
    buf[1] = 3;
    assert!(matches!(ICMPPacket::decode(&buf), Err(IcmpError::InvalidPacket)));
}

#[test]
fn decode_reads_big_endian_fields_and_payload() {
    let buf = [0, 0, 0xAA, 0xBB, 0x12, 0x34, 0x00, 0x07, 1, 2, 3];
    let p = ICMPPacket::decode(&buf).unwrap();
    assert_eq!(p.typ, 0);
    assert_eq!(p.code, 0);
    // The decoded checksum field is left zero, not carried forward.
    assert_eq!(p.checksum, 0);
    assert_eq!(p.ident, 0x1234);
    assert_eq!(p.sequence, 7);
    assert_eq!(p.payload, vec![1, 2, 3]);
}

#[test]
fn encode_decode_round_trip_as_reply() {
    // Encode an echo request, flip type/code to 0/0 as a reply would carry,
    // and decode it back.
    let mut packet = ICMPPacket {
        typ: 8,
        code: 0,
        checksum: 0,
        ident: 0x1234,
        sequence: 1,
        payload: vec![0; 64],
    };
    packet.checksum = packet.calculate_checksum();
    let mut buffer = vec![0u8; 72];
    assert!(packet.encode(&mut buffer).is_ok());
    buffer[0] = 0;
    buffer[1] = 0;
    let reply = ICMPPacket::decode(&buffer).unwrap();
    assert_eq!(reply.ident, 0x1234);
    assert_eq!(reply.sequence, 1);
    assert_eq!(reply.payload.len(), 64);
}

#[test]
fn encode_writes_header_and_payload() {
    let packet = ICMPPacket {
        typ: 8,
        code: 0,
        checksum: 0xABCD,
        ident: 0x0102,
        sequence: 0x0304,
        payload: vec![9, 8, 7],
    };
    let mut buffer = vec![0xEEu8; 12];
    assert!(packet.encode(&mut buffer).is_ok());
    assert_eq!(buffer, vec![8, 0, 0xAB, 0xCD, 0x01, 0x02, 0x03, 0x04, 9, 8, 7, 0xEE]);
}

#[test]
fn encode_rejects_small_buffer() {
    let packet = ICMPPacket {
        typ: 8,
        code: 0,
        checksum: 0,
        ident: 1,
        sequence: 1,
        payload: vec![0; 64],
    };
    let mut buffer = vec![0u8; 8];
    assert!(matches!(packet.encode(&mut buffer), Err(IcmpError::BufferTooSmall)));
    // The buffer is untouched on failure.
    assert_eq!(buffer, vec![0u8; 8]);
}

#[test]
fn get_bytes_zeroes_or_keeps_checksum_field() {
    let packet = ICMPPacket {
        typ: 8,
        code: 0,
        checksum: 0xBEEF,
        ident: 0x1234,
        sequence: 2,
        payload: vec![5],
    };
    let without = packet.get_bytes(false);
    let with = packet.get_bytes(true);
    assert_eq!(without, vec![8, 0, 0, 0, 0x12, 0x34, 0, 2, 5]);
    assert_eq!(with, vec![8, 0, 0xBE, 0xEF, 0x12, 0x34, 0, 2, 5]);
}
