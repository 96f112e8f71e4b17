use genos::net::{
    checksum, parse_ipv4_frame, parse_tcp, parse_udp, transport_checksum_valid,
    ETHERNET_HEADER_BYTES, IPV4_HEADER_BYTES, UDP_HEADER_BYTES,
};

fn valid_frame() -> [u8; ETHERNET_HEADER_BYTES + IPV4_HEADER_BYTES + UDP_HEADER_BYTES + 3] {
    let mut frame = [0u8; ETHERNET_HEADER_BYTES + IPV4_HEADER_BYTES + UDP_HEADER_BYTES + 3];
    frame[12..14].copy_from_slice(&0x0800u16.to_be_bytes());
    let ip = &mut frame[ETHERNET_HEADER_BYTES..];
    ip[0] = 0x45;
    ip[2..4].copy_from_slice(&((IPV4_HEADER_BYTES + UDP_HEADER_BYTES + 3) as u16).to_be_bytes());
    ip[6..8].copy_from_slice(&0x4000u16.to_be_bytes());
    ip[8] = 64;
    ip[9] = 17;
    ip[12..16].copy_from_slice(&[10, 0, 2, 15]);
    ip[16..20].copy_from_slice(&[10, 0, 2, 3]);
    let sum = checksum(&ip[..IPV4_HEADER_BYTES]);
    ip[10..12].copy_from_slice(&sum.to_be_bytes());
    let udp = &mut ip[IPV4_HEADER_BYTES..];
    udp[0..2].copy_from_slice(&49152u16.to_be_bytes());
    udp[2..4].copy_from_slice(&53u16.to_be_bytes());
    udp[4..6].copy_from_slice(&11u16.to_be_bytes());
    udp[8..].copy_from_slice(b"dns");
    frame
}

#[test]
fn ipv4_udp_parser_accepts_one_bounded_packet() {
    let frame = valid_frame();
    let ip = parse_ipv4_frame(&frame).unwrap();
    let udp = parse_udp(ip.payload).unwrap();
    assert_eq!(udp.destination_port, 53);
    assert_eq!(udp.payload, b"dns");
}

#[test]
fn malformed_packets_are_rejected_without_indexing_past_bounds() {
    let valid = valid_frame();
    for len in 0..valid.len() {
        let _ = parse_ipv4_frame(&valid[..len]);
    }
    let mut bad = valid;
    bad[ETHERNET_HEADER_BYTES] = 0x4f;
    assert!(parse_ipv4_frame(&bad).is_none());
    let mut bad = valid;
    bad[ETHERNET_HEADER_BYTES + 2..ETHERNET_HEADER_BYTES + 4]
        .copy_from_slice(&u16::MAX.to_be_bytes());
    assert!(parse_ipv4_frame(&bad).is_none());
    assert!(parse_udp(&[]).is_none());
    assert!(parse_tcp(&[0; 19]).is_none());
    let mut tcp = [0u8; 20];
    tcp[12] = 0xf0;
    assert!(parse_tcp(&tcp).is_none());
    assert!(transport_checksum_valid(
        [10, 0, 2, 15],
        [10, 0, 2, 3],
        17,
        &valid[ETHERNET_HEADER_BYTES + IPV4_HEADER_BYTES..]
    ));
    assert!(!transport_checksum_valid(
        [10, 0, 2, 15],
        [10, 0, 2, 3],
        6,
        &[0; 20]
    ));
}

#[test]
fn checksum_known_values() {
    assert_eq!(checksum(&[]), 0xffff);
    assert_eq!(checksum(&[0x45, 0x00, 0x00, 0x1c]), !0x451c);
    assert_eq!(checksum(&[0xff, 0xff, 0x00, 0x01]), !0x0001);
    assert_eq!(checksum(&[0x12]), !0x1200);
}

#[test]
fn parsed_fields_and_fragment_rejection() {
    let frame = valid_frame();
    let ip = parse_ipv4_frame(&frame).unwrap();
    assert_eq!(ip.source, [10, 0, 2, 15]);
    assert_eq!(ip.destination, [10, 0, 2, 3]);
    assert_eq!(ip.protocol, 17);
    let mut fragmented = frame;
    fragmented[ETHERNET_HEADER_BYTES + 7] = 1;
    assert!(parse_ipv4_frame(&fragmented).is_none());
    let mut tcp = [0u8; 24];
    tcp[0..2].copy_from_slice(&80u16.to_be_bytes());
    tcp[4..8].copy_from_slice(&0x0102_0304u32.to_be_bytes());
    tcp[12] = 0x50;
    tcp[13] = 0x12;
    let t = parse_tcp(&tcp).unwrap();
    assert_eq!((t.source_port, t.sequence, t.flags, t.payload.len()), (80, 0x0102_0304, 0x12, 4));
}
