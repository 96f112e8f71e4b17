use genos::network::{
    build_dhcp, parse_dhcp, sequence_after, sequence_in_window, stream_segment, transport_checksum,
    EarlyStreamData, Segment, SegmentReply, StreamOperation, StreamStats,
};
use genos::socket::TcpServerPeer;

fn peer() -> TcpServerPeer {
    TcpServerPeer {
        target: u32::from_be_bytes([10, 0, 0, 2]),
        remote_port: 40000,
        local_port: 18081,
        source_mac: [2, 0, 0, 0, 0, 2],
        remote_sequence: 1000,
        local_sequence: 5000,
    }
}

fn stats() -> StreamStats {
    StreamStats {
        max_ack_latency: 0,
        max_cwnd: 0,
        max_stream_bytes: 0,
        payload_bytes: 0,
        reordered_segments: 0,
        max_buffered: 0,
    }
}

fn seg(sequence: u32, acknowledgment: u32, flags: u8, window: u16, payload: &[u8]) -> Segment {
    Segment { sequence, acknowledgment, flags, window, payload: payload.to_vec() }
}

#[test]
fn sequence_space_wraps() {
    assert!(sequence_after(1, u32::MAX));
    assert!(!sequence_after(u32::MAX, 1));
    assert!(!sequence_after(7, 7));
    assert!(sequence_in_window(5, 5, 0));
    assert!(!sequence_in_window(6, 5, 0));
    assert!(sequence_in_window(1, u32::MAX - 1, 4));
    assert!(!sequence_in_window(2, u32::MAX - 1, 4));
}

#[test]
fn duplicate_segment_is_acknowledged_but_delivered_once() {
    let mut op = StreamOperation::open(peer(), &EarlyStreamData::empty(), 0);
    let mut st = stats();
    let reply = stream_segment(&mut op, &seg(1000, 5000, 0x18, 256, b"hello"), 1, &mut st);
    assert_eq!(reply, SegmentReply::WindowAck);
    assert_eq!(op.receive, b"hello");
    assert_eq!(op.remote_sequence, 1005);
    let reply = stream_segment(&mut op, &seg(1000, 5000, 0x18, 256, b"hello"), 2, &mut st);
    assert_eq!(reply, SegmentReply::Ack);
    assert_eq!(op.receive, b"hello");
    assert_eq!(op.remote_sequence, 1005);
    assert_eq!(st.payload_bytes, 5);
}

#[test]
fn reset_is_taken_only_at_the_exact_sequence() {
    let mut op = StreamOperation::open(peer(), &EarlyStreamData::empty(), 0);
    let mut st = stats();
    assert_eq!(stream_segment(&mut op, &seg(1001, 0, 0x04, 0, b""), 3, &mut st), SegmentReply::Ack);
    assert!(!op.reset);
    assert_eq!(stream_segment(&mut op, &seg(1002, 0, 0x04, 0, b""), 3, &mut st), SegmentReply::Nothing);
    assert!(!op.reset);
    assert_eq!(stream_segment(&mut op, &seg(1000, 0, 0x04, 0, b""), 4, &mut st), SegmentReply::Nothing);
    assert!(op.reset);
}

#[test]
fn forged_acknowledgment_leaves_the_peer_window() {
    let mut op = StreamOperation::open(peer(), &EarlyStreamData::empty(), 0);
    let mut st = stats();
    let before = op.peer_window;
    stream_segment(&mut op, &seg(1000, 9999, 0x10, 7, b""), 1, &mut st);
    assert_eq!(op.peer_window, before);
    stream_segment(&mut op, &seg(1000, 5000, 0x10, 7, b""), 1, &mut st);
    assert_eq!(op.peer_window, 7);
}

#[test]
fn out_of_order_bytes_wait_for_the_gap() {
    let mut op = StreamOperation::open(peer(), &EarlyStreamData::empty(), 0);
    let mut st = stats();
    assert_eq!(stream_segment(&mut op, &seg(1003, 5000, 0x18, 256, b"def"), 1, &mut st), SegmentReply::WindowAck);
    assert!(op.receive.is_empty());
    assert_eq!(op.remote_sequence, 1000);
    assert_eq!(stream_segment(&mut op, &seg(1000, 5000, 0x18, 256, b"abc"), 2, &mut st), SegmentReply::WindowAck);
    assert_eq!(op.receive, b"abc");
    assert_eq!(op.remote_sequence, 1006);
    assert!(op.deferred.as_ref().unwrap().acknowledged);
    assert_eq!(st.reordered_segments, 1);
}

#[test]
fn fin_closes_the_peer_side_and_nothing_follows() {
    let mut op = StreamOperation::open(peer(), &EarlyStreamData::empty(), 0);
    let mut st = stats();
    assert_eq!(stream_segment(&mut op, &seg(1000, 5000, 0x11, 256, b""), 1, &mut st), SegmentReply::WindowAck);
    assert!(op.peer_fin);
    assert_eq!(op.remote_sequence, 1001);
    assert_eq!(stream_segment(&mut op, &seg(1001, 5000, 0x18, 256, b"late"), 2, &mut st), SegmentReply::Ack);
    assert!(op.receive.is_empty());
}

#[test]
fn oversized_segment_resets_the_stream() {
    let mut op = StreamOperation::open(peer(), &EarlyStreamData::empty(), 0);
    let mut st = stats();
    let big = [1u8; 129];
    assert_eq!(stream_segment(&mut op, &seg(1000, 5000, 0x18, 256, &big), 1, &mut st), SegmentReply::Reset);
    assert!(op.failed);
}

#[test]
fn dhcp_request_round_trips_through_the_reader() {
    let mut out = [0u8; 300];
    let len = build_dhcp(&mut out, [2, 0, 0, 0, 0, 1], 0x1234_5678, 3, Some([10, 0, 2, 15]), Some([10, 0, 2, 2])).unwrap();
    assert_eq!(len, 240 + 3 + 6 + 6 + 5 + 1);
    assert_eq!(&out[4..8], &[0x12, 0x34, 0x56, 0x78]);
    assert_eq!(&out[240..243], &[53, 1, 3]);
    assert_eq!(out[len - 1], 255);
    assert!(out[len..].iter().all(|b| *b == 0));
    let mut reply = out.to_vec();
    reply[0] = 2;
    reply[16..20].copy_from_slice(&[10, 0, 2, 15]);
    let mut cursor = len - 1;
    for option in [&[53u8, 1, 5][..], &[1, 4, 255, 255, 0, 0], &[3, 4, 10, 0, 2, 2], &[6, 4, 10, 0, 2, 3], &[54, 4, 10, 0, 2, 2], &[255]] {
        reply[cursor..cursor + option.len()].copy_from_slice(option);
        cursor += option.len();
    }
    let config = parse_dhcp(&reply, 0x1234_5678, 5).unwrap();
    assert_eq!(config.address, [10, 0, 2, 15]);
    assert_eq!(config.subnet, [255, 255, 0, 0]);
    assert_eq!(config.gateway, [10, 0, 2, 2]);
    assert_eq!(config.dns, [10, 0, 2, 3]);
    assert!(parse_dhcp(&reply, 0x1234_5679, 5).is_none());
    assert!(parse_dhcp(&reply, 0x1234_5678, 2).is_none());
}

#[test]
fn ipv4_pseudo_header_checksum_verifies_to_zero() {
    let mut segment = vec![0u8; 8];
    segment[0..2].copy_from_slice(&1234u16.to_be_bytes());
    segment[4..6].copy_from_slice(&8u16.to_be_bytes());
    let sum = transport_checksum([10, 0, 0, 1], [10, 0, 0, 2], 17, &segment);
    segment[6..8].copy_from_slice(&sum.to_be_bytes());
    assert_eq!(transport_checksum([10, 0, 0, 1], [10, 0, 0, 2], 17, &segment), 0);
}
