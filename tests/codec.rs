use pinglogger::icmp::{decode_reply, write_checksum, EchoRequest, IcmpV4, IcmpV6, PacketError};

fn ones_complement_checksum(bytes: &[u8]) -> u16 {
    let mut sum: u64 = 0;
    for chunk in bytes.chunks(2) {
        let hi = (chunk[0] as u64) << 8;
        let lo = if chunk.len() > 1 { chunk[1] as u64 } else { 0 };
        sum += hi | lo;
    }
    while sum >> 16 > 0 {
        sum = (sum & 0xffff) + (sum >> 16);
    }
    !(sum as u16)
}

#[test]
fn checksum_of_known_words() {
    let mut buf = [0x00u8, 0x01, 0xf2, 0x03, 0xf4, 0xf5, 0xf6, 0xf7];
    write_checksum(&mut buf);
    assert_eq!(buf, [0x00, 0x01, 0x22, 0x0d, 0xf4, 0xf5, 0xf6, 0xf7]);
}

#[test]
fn checksum_pads_odd_final_byte() {
    let mut buf = [0x00u8, 0x01, 0xf2, 0x03, 0xf4, 0xf5, 0xf6];
    write_checksum(&mut buf);
    assert_eq!(buf[2], 0x23);
    assert_eq!(buf[3], 0x04);
    assert_eq!(&buf[4..], &[0xf4, 0xf5, 0xf6]);
}

#[test]
fn checksum_of_zeros_is_all_ones() {
    let mut buf = [0u8; 6];
    write_checksum(&mut buf);
    assert_eq!(buf, [0, 0, 0xff, 0xff, 0, 0]);
}

#[test]
fn encode_v4_header_only() {
    let mut buf = [0xaau8; 8];
    let req = EchoRequest { ident: 0x1234, seq_cnt: 1, payload: &[] };
    assert_eq!(req.encode::<IcmpV4>(&mut buf), Ok(()));
    assert_eq!(buf, [0x08, 0x00, 0xe5, 0xca, 0x12, 0x34, 0x00, 0x01]);
}

#[test]
fn encode_v6_header_only() {
    let mut buf = [0u8; 8];
    let req = EchoRequest { ident: 0x1234, seq_cnt: 1, payload: &[] };
    assert_eq!(req.encode::<IcmpV6>(&mut buf), Ok(()));
    assert_eq!(buf, [0x80, 0x00, 0x6d, 0xca, 0x12, 0x34, 0x00, 0x01]);
}

#[test]
fn encode_with_odd_payload() {
    let mut buf = [0u8; 11];
    let req = EchoRequest { ident: 0x1234, seq_cnt: 1, payload: &[0xde, 0xad, 0xbe] };
    assert_eq!(req.encode::<IcmpV4>(&mut buf), Ok(()));
    assert_eq!(buf, [0x08, 0x00, 0x49, 0x1c, 0x12, 0x34, 0x00, 0x01, 0xde, 0xad, 0xbe]);
}

#[test]
fn encode_keeps_bytes_after_payload() {
    let mut buf = [0x55u8; 12];
    let req = EchoRequest { ident: 1, seq_cnt: 2, payload: &[9] };
    assert_eq!(req.encode::<IcmpV4>(&mut buf), Ok(()));
    assert_eq!(&buf[8..], &[9, 0x55, 0x55, 0x55]);
    assert_eq!(ones_complement_checksum(&buf), 0);
}

#[test]
fn encode_rejects_payload_that_does_not_fit() {
    let mut buf = [7u8; 10];
    let req = EchoRequest { ident: 1, seq_cnt: 2, payload: &[1, 2, 3] };
    assert_eq!(req.encode::<IcmpV4>(&mut buf), Err(PacketError::InvalidSize));
    assert_eq!(buf, [7u8; 10]);
}

#[test]
fn encode_rejects_buffer_shorter_than_header() {
    let mut buf = [0u8; 7];
    let req = EchoRequest { ident: 1, seq_cnt: 2, payload: &[] };
    assert_eq!(req.encode::<IcmpV6>(&mut buf), Err(PacketError::InvalidSize));
    assert_eq!(buf, [0u8; 7]);
}

#[test]
fn encoded_request_checksums_to_zero() {
    for len in [0usize, 1, 7, 16, 33, 56] {
        let payload: Vec<u8> = (0..len).map(|i| (i * 37 + 11) as u8).collect();
        for (ident, seq) in [(0u16, 0u16), (0xffff, 0xffff), (0x1234, 0xfedc), (5, 10)] {
            let req = EchoRequest { ident, seq_cnt: seq, payload: &payload };
            let mut v4 = vec![0u8; 8 + len];
            req.encode::<IcmpV4>(&mut v4).unwrap();
            assert_eq!(ones_complement_checksum(&v4), 0);
            let mut v6 = vec![0u8; 64 + len];
            req.encode::<IcmpV6>(&mut v6).unwrap();
            assert_eq!(ones_complement_checksum(&v6), 0);
        }
    }
}

#[test]
fn decode_recovers_encoded_request() {
    for len in [0usize, 1, 16, 63, 64] {
        let payload: Vec<u8> = (0..len).map(|i| (255 - i) as u8).collect();
        for (ident, seq) in [(0u16, 0u16), (65535, 65535), (5, 10), (0x0100, 0x00ff)] {
            let req = EchoRequest { ident, seq_cnt: seq, payload: &payload };
            let mut v4 = vec![0u8; 8 + len];
            req.encode::<IcmpV4>(&mut v4).unwrap();
            v4[0] = 0;
            let reply = decode_reply::<IcmpV4>(&v4).unwrap();
            assert_eq!((reply.ident, reply.seq), (ident, seq));
            assert_eq!(reply.payload, payload);
            let mut v6 = vec![0u8; 8 + len];
            req.encode::<IcmpV6>(&mut v6).unwrap();
            v6[0] = 129;
            let reply = decode_reply::<IcmpV6>(&v6).unwrap();
            assert_eq!((reply.icmp_type, reply.code), (129, 0));
            assert_eq!((reply.ident, reply.seq), (ident, seq));
            assert_eq!(reply.payload, payload);
        }
    }
}

#[test]
fn decode_rejects_short_buffer() {
    assert!(matches!(decode_reply::<IcmpV4>(&[0, 0, 0, 0, 0, 0, 0]), Err(PacketError::InvalidSize)));
    assert!(matches!(decode_reply::<IcmpV6>(&[]), Err(PacketError::InvalidSize)));
}

#[test]
fn decode_rejects_other_types() {
    let request = [8u8, 0, 0, 0, 0, 1, 0, 1];
    assert!(matches!(decode_reply::<IcmpV4>(&request), Err(PacketError::InvalidPacket)));
    let v4_reply = [0u8, 0, 0, 0, 0, 1, 0, 1];
    assert!(matches!(decode_reply::<IcmpV6>(&v4_reply), Err(PacketError::InvalidPacket)));
    let unreachable = [1u8, 4, 0, 0, 0, 0, 0, 0, 0x60];
    assert!(matches!(decode_reply::<IcmpV6>(&unreachable), Err(PacketError::InvalidPacket)));
}

#[test]
fn decode_reads_header_fields() {
    let bytes = [129u8, 3, 0xab, 0xcd, 0x01, 0x02, 0x03, 0x04, 9, 8];
    let reply = decode_reply::<IcmpV6>(&bytes).unwrap();
    assert_eq!(reply.icmp_type, 129);
    assert_eq!(reply.code, 3);
    assert_eq!(reply.ident, 0x0102);
    assert_eq!(reply.seq, 0x0304);
    assert_eq!(reply.payload, vec![9, 8]);
}
