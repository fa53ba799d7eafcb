use sonar::ipv4::{IPV4Packet, IPV4Protocol, Ipv4Error};

fn header(byte0: u8, protocol: u8) -> Vec<u8> {
    let mut buf = vec![0u8; 20];
    buf[0] = byte0;
    buf[9] = protocol;
    buf
}

#[test]
fn decode_short_buffer_is_invalid_header() {
    assert!(matches!(IPV4Packet::decode(&[]), Err(Ipv4Error::InvalidHeader)));
    assert!(matches!(IPV4Packet::decode(&[0x45; 19]), Err(Ipv4Error::InvalidHeader)));
}

#[test]
fn decode_rejects_wrong_version_nibble() {
    // Version 5 in the high nibble.
    let buf = header(0x55, 1);
    assert!(matches!(IPV4Packet::decode(&buf), Err(Ipv4Error::InvalidVersion)));
    let buf = header(0x05, 1);
    assert!(matches!(IPV4Packet::decode(&buf), Err(Ipv4Error::InvalidVersion)));
}

#[test]
fn decode_rejects_buffer_shorter_than_declared_header() {
    // Low nibble 15 declares a 60-byte header; the buffer has only 20.
    let buf = header(0x4F, 1);
    assert!(matches!(IPV4Packet::decode(&buf), Err(Ipv4Error::InvalidHeaderSize)));
}

#[test]
fn decode_minimal_header_with_icmp() {
    // byte0 = 0x45: version 4, header length 20; protocol byte 1 is ICMP.
    let mut buf = header(0x45, 1);
    buf.extend_from_slice(&[1, 2, 3, 4]);
    let p = IPV4Packet::decode(&buf).unwrap();
    assert_eq!(p.version, 4);
    assert_eq!(p.ihl, 5);
    assert_eq!(p.protocol, IPV4Protocol::Icmp);
    assert_eq!(p.data, vec![1, 2, 3, 4]);
}

#[test]
fn decode_rejects_tcp_protocol() {
    // Protocol byte 6 is TCP, which the decoder does not support.
    let buf = header(0x45, 6);
    assert!(matches!(IPV4Packet::decode(&buf), Err(Ipv4Error::UnsupportedProtocol)));
}

#[test]
fn decode_reads_fields_big_endian() {
    let mut buf = header(0x45, 1);
    buf[1] = 0x10; // tos
    buf[2] = 0x01; // total length 0x0102
    buf[3] = 0x02;
    buf[4] = 0x0A; // id 0x0A0B
    buf[5] = 0x0B;
    buf[6] = 0x40; // fragment offset field 0x4000
    buf[7] = 0x00;
    buf[8] = 64; // ttl
    buf[10] = 0xCA; // header checksum 0xCAFE
    buf[11] = 0xFE;
    buf[12] = 192; // source 192.0.2.1
    buf[13] = 0;
    buf[14] = 2;
    buf[15] = 1;
    buf[16] = 198; // destination 198.51.100.7
    buf[17] = 51;
    buf[18] = 100;
    buf[19] = 7;
    let p = IPV4Packet::decode(&buf).unwrap();
    assert_eq!(p.tos, 0x10);
    assert_eq!(p.tot_len, 0x0102);
    assert_eq!(p.id, 0x0A0B);
    assert_eq!(p.frag_off, 0x4000);
    assert_eq!(p.ttl, 64);
    assert_eq!(p.check, 0xCAFE);
    assert_eq!(p.from_addr, 0xC0000201);
    assert_eq!(p.dest_addr, 0xC6336407);
    assert_eq!(p.data, Vec::<u8>::new());
}

#[test]
fn decode_skips_options_up_to_declared_length() {
    // Low nibble 6 declares a 24-byte header; data starts at offset 24.
    let mut buf = vec![0u8; 26];
    buf[0] = 0x46;
    buf[9] = 1;
    buf[24] = 0xAA;
    buf[25] = 0xBB;
    let p = IPV4Packet::decode(&buf).unwrap();
    assert_eq!(p.ihl, 6);
    assert_eq!(p.data, vec![0xAA, 0xBB]);
}

#[test]
fn protocol_decode_only_accepts_icmp() {
    assert_eq!(IPV4Protocol::decode(1), Some(IPV4Protocol::Icmp));
    assert_eq!(IPV4Protocol::decode(6), None);
    assert_eq!(IPV4Protocol::decode(17), None);
}
