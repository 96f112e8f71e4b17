use genos::net::{parse_ipv4_frame, parse_tcp, transport_checksum_valid, TcpPacket};
use genos::network::{
    AsyncTcpProgress, AsyncUdpProgress, EarlyStreamData, PassiveTcpProgress, PassiveTcpStreamProgress, PassiveTcpSyn, StreamOperation,
    PASSIVE_TCP_STREAM_SLOTS,
};
use genos::ipv6::{Host, State};
use genos::network_stack::NetworkStack;
use genos::socket::TcpServerPeer;

fn peer(port: u16) -> TcpServerPeer {
    TcpServerPeer {
        target: u32::from_be_bytes([10, 0, 0, 2]),
        remote_port: port,
        local_port: 18081,
        source_mac: [2, 0, 0, 0, 0, 2],
        remote_sequence: 1000,
        local_sequence: 5000,
    }
}

fn stack() -> NetworkStack {
    let mut stack = NetworkStack::new();
    stack.device.mac = [0x52, 0x54, 0, 0x12, 0x34, 0x56];
    stack.available = true;
    stack.address = [10, 0, 0, 1];
    stack
}

fn connected() -> (NetworkStack, TcpServerPeer) {
    let mut stack = stack();
    let peer = peer(40000);
    assert!(stack.start_tcp_passive_stream(peer, EarlyStreamData::empty(), 0));
    (stack, peer)
}

#[allow(clippy::too_many_arguments)]
fn packet(
    stack: &mut NetworkStack,
    peer: TcpServerPeer,
    seq: u32,
    ack: u32,
    flags: u8,
    window: u16,
    payload: &[u8],
    tick: u64,
) {
    let mut sender = self::stack();
    sender.address = peer.target.to_be_bytes();
    sender
        .send_tcp_with_window(
            stack.device.mac(),
            stack.address,
            peer.remote_port,
            peer.local_port,
            seq,
            ack,
            flags,
            payload,
            window,
        )
        .unwrap();
    stack
        .device
        .incoming
        .push_back(sender.device.outgoing.pop().unwrap());
    stack.pump_passive_rx(tick);
}

fn op(stack: &NetworkStack) -> &StreamOperation {
    stack.passive_streams[0].as_ref().unwrap()
}

fn last_tcp(stack: &NetworkStack) -> TcpPacket<'_> {
    let ip = parse_ipv4_frame(stack.device.outgoing.last().unwrap()).unwrap();
    assert!(transport_checksum_valid(
        ip.source,
        ip.destination,
        6,
        ip.payload
    ));
    parse_tcp(ip.payload).unwrap()
}

#[test]
fn duplicates_are_acknowledged_without_duplicate_delivery() {
    let (mut stack, peer) = connected();
    packet(&mut stack, peer, 1000, 5000, 0x18, 256, b"hello", 1);
    packet(&mut stack, peer, 1000, 5000, 0x18, 256, b"hello", 2);
    assert_eq!(op(&stack).receive.len(), 5);
    assert!(op(&stack).deferred.is_none());
    assert_eq!(last_tcp(&stack).acknowledgment, 1005);
    assert!(stack.consume_tcp_passive_stream_receive(peer));
    assert_eq!(op(&stack).receive.len(), 0);
}

#[test]
fn deferred_data_and_fin_wait_until_every_gap_closes() {
    let (mut stack, peer) = connected();
    packet(&mut stack, peer, 1010, 5000, 0x19, 256, b"third", 1);
    packet(&mut stack, peer, 1000, 5000, 0x18, 256, b"first", 2);
    assert_eq!(op(&stack).remote_sequence, 1005);
    assert!(stack.consume_tcp_passive_stream_receive(peer));
    assert_eq!(op(&stack).receive.len(), 0, "a gap cannot reach Ring 3");
    assert!(!op(&stack).peer_fin);
    packet(&mut stack, peer, 1005, 5000, 0x18, 256, b"2nd!!", 3);
    assert_eq!(op(&stack).remote_sequence, 1016);
    assert!(stack.consume_tcp_passive_stream_receive(peer));
    assert_eq!(&op(&stack).receive[..5], b"third");
    assert!(op(&stack).peer_fin);
}

#[test]
fn reset_requires_exact_receive_sequence_and_challenges_in_window_guess() {
    let (mut stack, peer) = connected();
    packet(&mut stack, peer, 999, 0, 0x04, 0, &[], 1);
    assert!(!op(&stack).reset, "old reset must not kill a connection");
    let sent = stack.device.outgoing.len();
    packet(&mut stack, peer, 1001, 0, 0x04, 0, &[], 2);
    assert!(!op(&stack).reset);
    assert_eq!(stack.device.outgoing.len(), sent + 1);
    assert_eq!(last_tcp(&stack).flags, 0x10);
    packet(&mut stack, peer, 1000, 0, 0x04, 0, &[], 3);
    assert!(
        matches!(stack.poll_tcp_passive_stream(3), PassiveTcpStreamProgress::Reset(p) if p == peer)
    );
}

#[test]
fn forged_ack_cannot_change_peer_window_or_complete_send() {
    let (mut stack, peer) = connected();
    packet(&mut stack, peer, 1000, 5000, 0x10, 64, &[], 1);
    assert!(stack.start_tcp_passive_stream_send(peer, b"hello", 2));
    packet(&mut stack, peer, 1000, 99999, 0x10, 0, &[], 3);
    assert_eq!(op(&stack).peer_window, 64);
    assert_eq!(op(&stack).send.len(), 5);
    packet(&mut stack, peer, 99999, 5005, 0x10, 0, &[], 4);
    assert_eq!(op(&stack).send.len(), 5, "out-of-window ACK has no authority");
}

#[test]
fn zero_window_defers_payload_and_reopening_resumes_exact_bytes() {
    let (mut stack, peer) = connected();
    packet(&mut stack, peer, 1000, 5000, 0x10, 0, &[], 1);
    let sent = stack.device.outgoing.len();
    assert!(stack.start_tcp_passive_stream_send(peer, b"hello", 2));
    assert_eq!(
        stack.device.outgoing.len(),
        sent,
        "zero window forbids payload flight"
    );
    packet(&mut stack, peer, 1000, 5000, 0x10, 3, &[], 3);
    stack.poll_tcp_passive_stream(3);
    assert_eq!(last_tcp(&stack).payload, b"hel");
    packet(&mut stack, peer, 1000, 5003, 0x10, 3, &[], 4);
    stack.poll_tcp_passive_stream(4);
    assert_eq!(last_tcp(&stack).payload, b"lo");
    packet(&mut stack, peer, 1000, 5005, 0x10, 3, &[], 5);
    assert!(
        matches!(stack.poll_tcp_passive_stream(5), PassiveTcpStreamProgress::SendComplete(p) if p == peer)
    );
}

#[test]
fn retransmitted_ack_does_not_supply_an_ambiguous_rtt_sample() {
    let (mut stack, peer) = connected();
    assert!(stack.start_tcp_passive_stream_send(peer, b"hello", 1));
    stack.poll_tcp_passive_stream(26);
    let backed_off = op(&stack).rto_ticks;
    packet(&mut stack, peer, 1000, 5005, 0x10, 256, &[], 27);
    assert_eq!(op(&stack).rto_ticks, backed_off);
}

#[test]
fn full_receive_window_reopens_after_consumption_without_losing_bytes() {
    let (mut stack, peer) = connected();
    packet(&mut stack, peer, 1000, 5000, 0x18, 256, &[b'a'; 128], 1);
    packet(&mut stack, peer, 1128, 5000, 0x18, 256, &[b'b'; 128], 2);
    assert_eq!(last_tcp(&stack).window, 0);
    packet(&mut stack, peer, 1256, 5000, 0x18, 256, b"retry", 3);
    assert_eq!(op(&stack).remote_sequence, 1256);
    assert!(stack.consume_tcp_passive_stream_receive(peer));
    assert_eq!(last_tcp(&stack).window, 128);
    assert_eq!(&op(&stack).receive[..128], &[b'b'; 128]);
    assert!(stack.consume_tcp_passive_stream_receive(peer));
    packet(&mut stack, peer, 1256, 5000, 0x18, 256, b"retry", 4);
    assert_eq!(&op(&stack).receive[..5], b"retry");
}

#[test]
fn slow_reader_does_not_stop_outbound_retransmissions() {
    let (mut stack, peer) = connected();
    assert!(stack.start_tcp_passive_stream_send(peer, b"reply", 1));
    packet(&mut stack, peer, 1000, 5000, 0x18, 256, b"unread", 2);
    let transmissions = stack.device.outgoing.len();
    stack.poll_tcp_passive_stream(26);
    assert_eq!(stack.device.outgoing.len(), transmissions + 1);
    assert_eq!(last_tcp(&stack).payload, b"reply");
}

#[test]
fn cancellation_and_reset_leave_sibling_stream_usable() {
    let (mut stack, first) = connected();
    let second = peer(40001);
    assert!(stack.start_tcp_passive_stream(second, EarlyStreamData::empty(), 0));
    assert!(stack.start_tcp_passive_stream_send(first, b"cancel", 1));
    stack.cancel_tcp_passive_stream(first);
    assert_eq!(last_tcp(&stack).flags, 0x14);
    packet(&mut stack, first, 1000, 5006, 0x10, 256, &[], 2);
    assert!(stack.stream_slot(first).is_none());
    packet(&mut stack, second, 1000, 5000, 0x18, 256, b"healthy", 3);
    assert!(
        matches!(stack.poll_tcp_passive_stream(3), PassiveTcpStreamProgress::Received { peer, len: 7, .. } if peer == second)
    );
}

#[test]
fn zero_window_persists_with_bounded_probes_and_releases_its_slot() {
    let (mut stack, peer) = connected();
    packet(&mut stack, peer, 1000, 5000, 0x10, 0, &[], 1);
    assert!(stack.start_tcp_passive_stream_send(peer, b"pending", 2));
    for tick in 3..202 {
        stack.poll_tcp_passive_stream(tick);
    }
    assert!(stack.device.outgoing.len() <= 3);
    assert_eq!(last_tcp(&stack).sequence, 4999);
    assert_eq!(op(&stack).send.len(), 7);
    assert_eq!(stack.tcp_congestion_events, 0);
    assert!(
        matches!(stack.poll_tcp_passive_stream(202), PassiveTcpStreamProgress::Failed(p) if p == peer)
    );
    assert!(stack.stream_slot(peer).is_none());
}

#[test]
fn sequence_wrap_preserves_order_and_exact_send_completion() {
    let mut stack = stack();
    let mut peer = peer(40000);
    peer.remote_sequence = u32::MAX - 2;
    peer.local_sequence = u32::MAX - 1;
    assert!(stack.start_tcp_passive_stream(peer, EarlyStreamData::empty(), 0));
    packet(
        &mut stack,
        peer,
        u32::MAX - 2,
        u32::MAX - 1,
        0x18,
        256,
        b"wrap",
        1,
    );
    assert_eq!(op(&stack).remote_sequence, 1);
    assert!(stack.consume_tcp_passive_stream_receive(peer));
    assert!(stack.start_tcp_passive_stream_send(peer, b"wrap", 2));
    packet(&mut stack, peer, 1, 2, 0x10, 256, &[], 3);
    assert!(matches!(
        stack.poll_tcp_passive_stream(3),
        PassiveTcpStreamProgress::SendComplete(_)
    ));
}

#[test]
fn overlap_cannot_deliver_conflicting_deferred_bytes() {
    let (mut stack, peer) = connected();
    packet(&mut stack, peer, 1005, 5000, 0x18, 256, b"first", 1);
    packet(&mut stack, peer, 1000, 5000, 0x18, 256, b"0123456789", 2);
    // This bounded receiver declines partial overlaps, leaving the gap and
    // its first accepted bytes unchanged for an exact retransmission.
    assert_eq!(op(&stack).remote_sequence, 1000);
    assert_eq!(op(&stack).receive.len(), 0);
    packet(&mut stack, peer, 1000, 5000, 0x18, 256, b"01234", 3);
    assert_eq!(op(&stack).remote_sequence, 1010);
    assert!(stack.consume_tcp_passive_stream_receive(peer));
    assert_eq!(&op(&stack).receive[..5], b"first");
}

#[test]
fn no_data_or_second_fin_is_admitted_after_peer_eof() {
    let (mut stack, peer) = connected();
    packet(&mut stack, peer, 1000, 5000, 0x11, 256, &[], 1);
    packet(&mut stack, peer, 1001, 5000, 0x19, 256, b"invalid", 2);
    assert_eq!(op(&stack).remote_sequence, 1001);
    assert_eq!(op(&stack).receive.len(), 0);
}

#[test]
fn fin_waits_for_an_open_receive_window() {
    let (mut stack, peer) = connected();
    packet(&mut stack, peer, 1000, 5000, 0x18, 256, &[0; 128], 1);
    packet(&mut stack, peer, 1128, 5000, 0x18, 256, &[1; 128], 2);
    packet(&mut stack, peer, 1256, 5000, 0x11, 256, &[], 3);
    assert!(!op(&stack).peer_fin);
    assert_eq!(op(&stack).remote_sequence, 1256);
    stack.consume_tcp_passive_stream_receive(peer);
    packet(&mut stack, peer, 1256, 5000, 0x11, 256, &[], 4);
    assert!(op(&stack).peer_fin);
}

#[test]
fn stream_capacity_exhaustion_is_bounded_and_reusable() {
    let mut stack = stack();
    for offset in 0..PASSIVE_TCP_STREAM_SLOTS {
        assert!(stack.start_tcp_passive_stream(
            peer(40000 + offset as u16),
            EarlyStreamData::empty(),
            0
        ));
    }
    assert!(!stack.start_tcp_passive_stream(peer(50000), EarlyStreamData::empty(), 0));
    stack.cancel_tcp_passive_stream(peer(40002));
    assert!(stack.start_tcp_passive_stream(peer(50000), EarlyStreamData::empty(), 1));
}

#[test]
fn checksum_corruption_and_foreign_tuple_never_change_stream_state() {
    let (mut stack, peer) = connected();
    let mut sender = self::stack();
    sender.address = peer.target.to_be_bytes();
    sender
        .send_tcp_with_window(
            stack.device.mac(),
            stack.address,
            peer.remote_port,
            peer.local_port,
            1000,
            5000,
            0x18,
            b"safe",
            256,
        )
        .unwrap();
    let frame = sender.device.outgoing.pop().unwrap();
    for length in 0..frame.len() {
        stack.device.incoming.push_back(frame[..length].to_vec());
        stack.pump_passive_rx(1);
        assert_eq!(op(&stack).remote_sequence, 1000);
    }
    let mut corrupt = frame;
    *corrupt.last_mut().unwrap() ^= 1;
    stack.device.incoming.push_back(corrupt);
    stack.pump_passive_rx(2);
    let mut foreign = peer;
    foreign.remote_port += 1;
    packet(&mut stack, foreign, 1000, 5000, 0x18, 256, b"wrong", 3);
    assert_eq!(op(&stack).receive.len(), 0);
}

fn offered_syn(stack: &mut NetworkStack, port: u16, sequence: u32, tick: u64) -> PassiveTcpSyn {
    let mut p = peer(port);
    p.remote_sequence = sequence;
    packet(stack, p, sequence, 0, 0x02, 1024, &[], tick);
    match stack.poll_tcp_passive(tick) {
        PassiveTcpProgress::Syn(syn) => syn,
        _ => panic!("no SYN offered"),
    }
}

#[test]
fn passive_syn_is_offered_once() {
    let mut stack = stack();
    let p = peer(40000);
    packet(&mut stack, p, 700, 0, 0x02, 1024, &[], 1);
    packet(&mut stack, p, 700, 0, 0x02, 1024, &[], 1);
    match stack.poll_tcp_passive(1) {
        PassiveTcpProgress::Syn(syn) => {
            assert_eq!(syn.target, u32::from_be_bytes([10, 0, 0, 2]));
            assert_eq!(syn.remote_port, 40000);
            assert_eq!(syn.local_port, 18081);
            assert_eq!(syn.remote_sequence, 700);
        },
        _ => panic!("expected the SYN"),
    }
    assert!(matches!(stack.poll_tcp_passive(2), PassiveTcpProgress::Idle));
}

#[test]
fn handshake_establishes_after_the_final_acknowledgment() {
    let mut stack = stack();
    let syn = offered_syn(&mut stack, 40000, 700, 1);
    assert!(stack.start_tcp_passive(syn, 1));
    let syn_ack = last_tcp(&stack);
    assert_eq!(syn_ack.flags, 0x12);
    assert_eq!(syn_ack.acknowledgment, 701);
    let initial = syn_ack.sequence;
    assert!(stack.tcp_passive_active());
    assert!(matches!(stack.poll_tcp_passive(2), PassiveTcpProgress::Pending));
    packet(&mut stack, peer(40000), 701, initial.wrapping_add(1), 0x10, 512, &[], 3);
    match stack.poll_tcp_passive(3) {
        PassiveTcpProgress::Established(p, early) => {
            assert_eq!(p.remote_sequence, 701);
            assert_eq!(p.local_sequence, initial.wrapping_add(1));
            assert_eq!(p.remote_port, 40000);
            assert_eq!(early.len, 0);
            assert_eq!(early.peer_window, 512);
        },
        _ => panic!("expected an established peer"),
    }
    assert!(!stack.tcp_passive_active());
}

#[test]
fn early_data_is_acknowledged_and_handed_over() {
    let mut stack = stack();
    let syn = offered_syn(&mut stack, 40000, 700, 1);
    assert!(stack.start_tcp_passive(syn, 1));
    let initial = last_tcp(&stack).sequence;
    packet(&mut stack, peer(40000), 701, initial.wrapping_add(1), 0x18, 512, b"hi", 2);
    assert_eq!(last_tcp(&stack).acknowledgment, 703);
    match stack.poll_tcp_passive(2) {
        PassiveTcpProgress::Established(p, early) => {
            assert_eq!(early.len, 2);
            assert_eq!(&early.bytes[..2], b"hi");
            assert!(stack.start_tcp_passive_stream(p, early, 2));
            assert_eq!(op(&stack).receive.len(), 2);
            assert_eq!(op(&stack).remote_sequence, 703);
        },
        _ => panic!("expected an established peer"),
    }
}

#[test]
fn handshake_reset_counts_only_at_the_next_sequence() {
    let mut stack = stack();
    let syn = offered_syn(&mut stack, 40000, 700, 1);
    assert!(stack.start_tcp_passive(syn, 1));
    packet(&mut stack, peer(40000), 900, 0, 0x04, 0, &[], 2);
    assert!(matches!(stack.poll_tcp_passive(2), PassiveTcpProgress::Pending));
    packet(&mut stack, peer(40000), 701, 0, 0x04, 0, &[], 3);
    assert!(matches!(stack.poll_tcp_passive(3), PassiveTcpProgress::Failed(f) if f.remote_port == 40000));
}

#[test]
fn unanswered_syn_ack_is_sent_again_then_fails() {
    let mut stack = stack();
    let syn = offered_syn(&mut stack, 40000, 700, 1);
    assert!(stack.start_tcp_passive(syn, 1));
    let sent = stack.device.outgoing.len();
    assert!(matches!(stack.poll_tcp_passive(26), PassiveTcpProgress::Pending));
    assert_eq!(stack.device.outgoing.len(), sent + 1);
    assert_eq!(last_tcp(&stack).flags, 0x12);
    assert!(matches!(stack.poll_tcp_passive(51), PassiveTcpProgress::Pending));
    assert!(matches!(stack.poll_tcp_passive(76), PassiveTcpProgress::Failed(_)));
    assert!(!stack.tcp_passive_active());
}

#[test]
fn refused_syn_is_answered_with_a_reset() {
    let mut stack = stack();
    let syn = offered_syn(&mut stack, 40000, 700, 1);
    stack.reject_tcp_syn(syn);
    let reset = last_tcp(&stack);
    assert_eq!(reset.flags, 0x14);
    assert_eq!(reset.acknowledgment, 701);
    assert_eq!(reset.destination_port, 40000);
}

#[test]
fn stack_down_offers_nothing() {
    let mut stack = NetworkStack::new();
    assert!(matches!(stack.poll_tcp_passive(1), PassiveTcpProgress::Idle));
    assert!(!stack.start_tcp_passive_stream(peer(40000), EarlyStreamData::empty(), 1));
}

fn arp_reply(to: &NetworkStack, sender_mac: [u8; 6], sender: [u8; 4]) -> Vec<u8> {
    let mut frame = vec![0u8; 42];
    frame[..6].copy_from_slice(&to.device.mac());
    frame[6..12].copy_from_slice(&sender_mac);
    frame[12] = 0x08;
    frame[13] = 0x06;
    frame[14..22].copy_from_slice(&[0, 1, 8, 0, 6, 4, 0, 2]);
    frame[22..28].copy_from_slice(&sender_mac);
    frame[28..32].copy_from_slice(&sender);
    frame[32..38].copy_from_slice(&to.device.mac());
    frame[38..42].copy_from_slice(&to.address);
    frame
}

fn server() -> NetworkStack {
    let mut server = stack();
    server.address = [10, 0, 0, 2];
    server.device.mac = [2, 0, 0, 0, 0, 2];
    server
}

#[test]
fn udp_request_resolves_sends_and_completes() {
    let mut stack = stack();
    assert!(stack.start_udp_async([10, 0, 0, 2], 53, b"query", 0));
    assert!(!stack.start_udp_async([10, 0, 0, 2], 53, b"again", 0));
    assert!(matches!(stack.poll_udp_async(0), AsyncUdpProgress::Pending));
    let arp = stack.device.outgoing.last().unwrap().clone();
    assert_eq!(&arp[12..14], &[0x08, 0x06]);
    assert_eq!(&arp[38..42], &[10, 0, 0, 2]);
    let reply = arp_reply(&stack, [2, 0, 0, 0, 0, 2], [10, 0, 0, 2]);
    stack.device.incoming.push_back(reply);
    assert!(matches!(stack.poll_udp_async(1), AsyncUdpProgress::Pending));
    let request = stack.device.outgoing.last().unwrap().clone();
    assert_eq!(&request[..6], &[2, 0, 0, 0, 0, 2]);
    let ip = parse_ipv4_frame(&request).unwrap();
    assert_eq!(ip.protocol, 17);
    let udp = genos::net::parse_udp(ip.payload).unwrap();
    assert_eq!(udp.source_port, 49152);
    assert_eq!(udp.destination_port, 53);
    assert_eq!(udp.payload, b"query");
    let mut server = server();
    assert!(server.send_udp_raw(stack.device.mac(), [10, 0, 0, 2], [10, 0, 0, 1], 53, 49152, b"answer"));
    stack.device.incoming.push_back(server.device.outgoing.pop().unwrap());
    match stack.poll_udp_async(2) {
        AsyncUdpProgress::Complete { bytes, len } => {
            assert_eq!(len, 6);
            assert_eq!(&bytes[..6], b"answer");
            assert_eq!(bytes[6], 0);
        },
        _ => panic!("expected the answer"),
    }
    assert!(matches!(stack.poll_udp_async(3), AsyncUdpProgress::Idle));
}

#[test]
fn unanswered_udp_request_fails_after_three_sends() {
    let mut stack = stack();
    assert!(stack.start_udp_async([10, 0, 0, 2], 53, b"query", 0));
    assert!(matches!(stack.poll_udp_async(0), AsyncUdpProgress::Pending));
    assert!(matches!(stack.poll_udp_async(25), AsyncUdpProgress::Pending));
    assert!(matches!(stack.poll_udp_async(50), AsyncUdpProgress::Pending));
    assert_eq!(stack.device.outgoing.len(), 3);
    assert!(matches!(stack.poll_udp_async(75), AsyncUdpProgress::Failed));
}

#[test]
fn own_requests_wait_for_passive_service() {
    let (mut stack, _) = connected();
    assert!(!stack.start_udp_async([10, 0, 0, 2], 53, b"query", 0));
    assert!(!stack.start_tcp_async([10, 0, 0, 2], 80, b"GET", 0));
    let mut idle = self::stack();
    assert!(!idle.start_udp_async([0, 0, 0, 0], 53, b"query", 0));
    assert!(!idle.start_tcp_async([10, 0, 0, 2], 0, b"GET", 0));
    assert!(!idle.start_tcp_async([10, 0, 0, 2], 80, &[], 0));
    assert!(idle.start_tcp_async([10, 0, 0, 2], 80, b"GET", 0));
    assert!(!idle.start_tcp_passive_stream(peer(40000), EarlyStreamData::empty(), 0));
}

#[test]
fn async_tcp_connects_sends_collects_and_closes() {
    let mut stack = stack();
    assert!(stack.start_tcp_async([10, 0, 0, 2], 80, b"GET", 0));
    assert!(matches!(stack.poll_tcp_async(0), AsyncTcpProgress::Pending));
    let reply = arp_reply(&stack, [2, 0, 0, 0, 0, 2], [10, 0, 0, 2]);
    stack.device.incoming.push_back(reply);
    assert!(matches!(stack.poll_tcp_async(1), AsyncTcpProgress::Pending));
    let syn = last_tcp(&stack);
    assert_eq!(syn.flags, 0x02);
    assert_eq!(syn.source_port, 49152);
    let initial = syn.sequence;
    let mut server = server();
    server
        .send_tcp(stack.device.mac(), [10, 0, 0, 1], 80, 49152, 9000, initial.wrapping_add(1), 0x12, &[])
        .unwrap();
    stack.device.incoming.push_back(server.device.outgoing.pop().unwrap());
    assert!(matches!(stack.poll_tcp_async(2), AsyncTcpProgress::Pending));
    let request = last_tcp(&stack);
    assert_eq!(request.flags, 0x18);
    assert_eq!(request.payload, b"GET");
    assert_eq!(request.acknowledgment, 9001);
    let after_request = initial.wrapping_add(4);
    server
        .send_tcp(stack.device.mac(), [10, 0, 0, 1], 80, 49152, 9001, after_request, 0x18, b"hello")
        .unwrap();
    stack.device.incoming.push_back(server.device.outgoing.pop().unwrap());
    assert!(matches!(stack.poll_tcp_async(3), AsyncTcpProgress::Pending));
    assert_eq!(last_tcp(&stack).acknowledgment, 9006);
    server
        .send_tcp(stack.device.mac(), [10, 0, 0, 1], 80, 49152, 9006, after_request, 0x11, &[])
        .unwrap();
    stack.device.incoming.push_back(server.device.outgoing.pop().unwrap());
    match stack.poll_tcp_async(4) {
        AsyncTcpProgress::Complete { bytes, len } => {
            assert_eq!(len, 5);
            assert_eq!(&bytes[..5], b"hello");
        },
        _ => panic!("expected the response"),
    }
    assert_eq!(last_tcp(&stack).flags, 0x11);
    assert!(matches!(stack.poll_tcp_async(5), AsyncTcpProgress::Idle));
}

#[test]
fn async_tcp_reset_fails() {
    let mut stack = stack();
    assert!(stack.start_tcp_async([10, 0, 0, 2], 80, b"GET", 0));
    stack.poll_tcp_async(0);
    let reply = arp_reply(&stack, [2, 0, 0, 0, 0, 2], [10, 0, 0, 2]);
    stack.device.incoming.push_back(reply);
    stack.poll_tcp_async(1);
    let mut server = server();
    server.send_tcp(stack.device.mac(), [10, 0, 0, 1], 80, 49152, 0, 0, 0x14, &[]).unwrap();
    stack.device.incoming.push_back(server.device.outgoing.pop().unwrap());
    assert!(matches!(stack.poll_tcp_async(2), AsyncTcpProgress::Failed));
}

#[test]
fn ipv6_host_runs_on_the_control_tick() {
    let mut stack = stack();
    stack.ipv6 = Some(Host::new(stack.device.mac(), 0));
    stack.advance_control(0);
    assert_eq!(stack.control_tick, 0);
    let frame = stack.device.outgoing.last().unwrap();
    assert_eq!(&frame[12..14], &[0x86, 0xdd]);
}

#[test]
fn refused_ipv6_frame_makes_the_host_unavailable() {
    let mut stack = stack();
    stack.ipv6 = Some(Host::new(stack.device.mac(), 0));
    stack.device.fail_transmit = true;
    stack.advance_control(0);
    assert_eq!(stack.ipv6.as_ref().unwrap().state, State::Unavailable);
    assert!(stack.device.outgoing.is_empty());
}

#[test]
fn ipv6_frames_do_not_hide_the_next_segment() {
    let (mut stack, peer) = connected();
    stack
        .device
        .incoming
        .push_back(vec![0u8, 0, 0, 0, 0, 0, 0, 0, 0, 0, 0, 0, 0x86, 0xdd, 0, 0]);
    packet(&mut stack, peer, 1000, 5000, 0x18, 256, b"hello", 1);
    assert_eq!(op(&stack).receive.len(), 5);
    assert!(stack.device.incoming.is_empty());
}
