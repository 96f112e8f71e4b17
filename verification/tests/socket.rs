use genos::socket::{
    local_port_is_available, SocketError, SocketOwner, SocketProtocol, SocketSet, SocketState,
    TcpServerPeer, SOCKET_BUFFER_CAPACITY, SOCKET_CAPACITY, SOCKET_LISTENER_PORT_MIN,
    SOCKET_READY_ACCEPT, SOCKET_READY_CLOSED, SOCKET_READY_ERROR, SOCKET_READY_WRITABLE,
};


const OWNER: SocketOwner = SocketOwner {
    slot: 2,
    incarnation: 9,
};
const OTHER: SocketOwner = SocketOwner {
    slot: 3,
    incarnation: 9,
};

fn server_peer(target: u32, remote_port: u16) -> TcpServerPeer {
    TcpServerPeer {
        target,
        remote_port,
        local_port: SOCKET_LISTENER_PORT_MIN,
        remote_sequence: 100,
        local_sequence: 200,
        source_mac: [1, 2, 3, 4, 5, 6],
    }
}

#[test]
fn handles_are_generation_safe_and_owner_scoped() {
    let mut sockets = SocketSet::new();
    let first = sockets.open(OWNER, SocketProtocol::Udp).unwrap();
    let other_handle = sockets.open(OTHER, SocketProtocol::Udp).unwrap();
    assert_ne!(first, other_handle);
    assert!(sockets.status(OTHER, first).is_err());
    assert!(sockets.status(OWNER, first ^ (1 << 8)).is_err());
    sockets.close(OWNER, first).unwrap();
    let second = sockets.open(OWNER, SocketProtocol::Udp).unwrap();
    assert_ne!(first, second);
    assert_eq!(
        sockets.status(OWNER, first),
        Err(SocketError::InvalidHandle)
    );
}

#[test]
fn bounded_queues_report_readiness_and_backpressure() {
    let mut sockets = SocketSet::new();
    let handle = sockets.open(OWNER, SocketProtocol::TcpStream).unwrap();
    sockets.connect(OWNER, handle, 0x0a00_0202, 443).unwrap();
    assert_eq!(
        sockets.receive(OWNER, handle, &mut [0; 8]),
        Err(SocketError::WouldBlock)
    );
    sockets.mark_connected(OWNER, handle).unwrap();
    let payload = [7u8; SOCKET_BUFFER_CAPACITY];
    assert_eq!(sockets.send(OWNER, handle, &payload), Ok(payload.len()));
    assert_eq!(
        sockets.send(OWNER, handle, b"x"),
        Err(SocketError::WouldBlock)
    );
    assert_eq!(
        sockets.status(OWNER, handle).unwrap().readiness & SOCKET_READY_WRITABLE,
        0
    );
    let mut drained = [0u8; SOCKET_BUFFER_CAPACITY];
    assert_eq!(
        sockets.take_send(OWNER, handle, &mut drained),
        Ok(payload.len())
    );
    assert_eq!(drained, payload);
    assert_ne!(
        sockets.status(OWNER, handle).unwrap().readiness & SOCKET_READY_WRITABLE,
        0
    );
}

#[test]
fn receive_is_partial_bounded_and_lossless() {
    let mut sockets = SocketSet::new();
    let handle = sockets.open(OWNER, SocketProtocol::Udp).unwrap();
    sockets.connect(OWNER, handle, 0x0a00_0203, 53).unwrap();
    sockets.push_receive(OWNER, handle, b"abcdefgh").unwrap();
    let mut first = [0u8; 3];
    let mut second = [0u8; 5];
    assert_eq!(sockets.receive(OWNER, handle, &mut first), Ok(3));
    assert_eq!(&first, b"abc");
    assert_eq!(sockets.receive(OWNER, handle, &mut second), Ok(5));
    assert_eq!(&second, b"defgh");
    assert_eq!(
        sockets.receive(OWNER, handle, &mut second),
        Err(SocketError::WouldBlock)
    );
}

#[test]
fn udp_completion_is_bound_to_the_exact_in_flight_request() {
    let mut sockets = SocketSet::new();
    let handle = sockets.open(OWNER, SocketProtocol::Udp).unwrap();
    sockets.connect(OWNER, handle, 0x0a00_0203, 53).unwrap();
    sockets.send(OWNER, handle, b"query").unwrap();
    let mut request = [0u8; SOCKET_BUFFER_CAPACITY];
    assert_eq!(
        sockets.begin_udp_send(OWNER, handle, 41, &mut request),
        Ok((0x0a00_0203, 53, 5))
    );
    assert_eq!(&request[..5], b"query");
    assert_eq!(sockets.status(OWNER, handle).unwrap().queued_send, 5);
    assert!(sockets.udp_request_active(OWNER, handle, 41, 5));
    assert!(!sockets.udp_request_active(OWNER, handle, 42, 5));
    assert_eq!(
        sockets.complete_udp_send(OWNER, handle, 42, b"reply"),
        Err(SocketError::InvalidState)
    );
    assert_eq!(
        sockets.complete_udp_send(OWNER, handle, 41, b"reply"),
        Ok(5)
    );
    assert!(!sockets.udp_request_active(OWNER, handle, 41, 5));
    let mut response = [0u8; 8];
    assert_eq!(sockets.receive(OWNER, handle, &mut response), Ok(5));
    assert_eq!(&response[..5], b"reply");
}

#[test]
fn tcp_transport_preserves_connecting_state_until_exact_completion() {
    let mut sockets = SocketSet::new();
    let handle = sockets.open(OWNER, SocketProtocol::TcpStream).unwrap();
    sockets.connect(OWNER, handle, 0x0a00_0202, 18080).unwrap();
    sockets.send(OWNER, handle, b"GET /").unwrap();
    assert_eq!(
        sockets.pending_transport(OWNER),
        Some((handle, SocketProtocol::TcpStream))
    );
    let mut request = [0u8; SOCKET_BUFFER_CAPACITY];
    assert_eq!(
        sockets.begin_transport(OWNER, handle, SocketProtocol::TcpStream, 77, &mut request,),
        Ok((0x0a00_0202, 18080, 5))
    );
    assert_eq!(&request[..5], b"GET /");
    assert!(sockets.transport_request_active(OWNER, handle, SocketProtocol::TcpStream, 77, 5,));
    assert_eq!(
        sockets.complete_transport(OWNER, handle, SocketProtocol::Udp, 77, b"HTTP",),
        Err(SocketError::InvalidState)
    );
    assert_eq!(
        sockets.complete_transport(OWNER, handle, SocketProtocol::TcpStream, 78, b"HTTP",),
        Err(SocketError::InvalidState)
    );
    assert_eq!(
        sockets.complete_transport(OWNER, handle, SocketProtocol::TcpStream, 77, b"HTTP",),
        Ok(4)
    );
    assert_eq!(
        sockets.status(OWNER, handle).unwrap().state,
        SocketState::Established
    );
}

#[test]
fn listener_backlog_and_accepted_children_are_bounded_capabilities() {
    let mut sockets = SocketSet::new();
    let listener = sockets.open(OWNER, SocketProtocol::TcpStream).unwrap();
    assert_eq!(
        sockets.bind(OWNER, listener, SOCKET_LISTENER_PORT_MIN - 1),
        Err(SocketError::InvalidState)
    );
    sockets
        .bind(OWNER, listener, SOCKET_LISTENER_PORT_MIN)
        .unwrap();
    assert!(sockets.owns_local_port(SOCKET_LISTENER_PORT_MIN));
    sockets.listen(OWNER, listener, 2).unwrap();
    assert_eq!(
        sockets.accept(OWNER, listener),
        Err(SocketError::WouldBlock)
    );
    sockets
        .queue_incoming(OWNER, listener, server_peer(0x0a00_0202, 50000))
        .unwrap();
    sockets
        .queue_incoming(OWNER, listener, server_peer(0x0a00_0203, 50001))
        .unwrap();
    assert_eq!(
        sockets.queue_incoming(OWNER, listener, server_peer(0x0a00_0204, 50002)),
        Err(SocketError::WouldBlock)
    );
    let status = sockets.status(OWNER, listener).unwrap();
    assert_eq!(status.state, SocketState::Listening);
    assert_ne!(status.readiness & SOCKET_READY_ACCEPT, 0);
    assert_eq!(status.readiness & SOCKET_READY_WRITABLE, 0);
    let first = sockets.accept(OWNER, listener).unwrap();
    assert_eq!(
        sockets.status(OWNER, first).unwrap().state,
        SocketState::Established
    );
    assert_eq!(sockets.remote(OWNER, first), Ok((0x0a00_0202, 50000)));
    assert_ne!(
        sockets.status(OWNER, first).unwrap().readiness & SOCKET_READY_WRITABLE,
        0
    );
    let first_peer = server_peer(0x0a00_0202, 50000);
    assert_eq!(sockets.server_peer(OWNER, first), Ok(first_peer));
    assert_eq!(sockets.send(OWNER, first, b"pong"), Ok(4));
    assert_eq!(sockets.pending_transport(OWNER), None);
    assert!(sockets.server_send_pending(OWNER, first, first_peer));
    let mut output = [0; SOCKET_BUFFER_CAPACITY];
    assert_eq!(
        sockets.begin_server_send(OWNER, first, 88, &mut output),
        Ok(4)
    );
    assert_eq!(&output[..4], b"pong");
    assert!(sockets.server_send_active(OWNER, first, first_peer, 88, 4));
    assert_eq!(
        sockets.shutdown(OWNER, first, false, true),
        Err(SocketError::WouldBlock)
    );
    assert_eq!(
        sockets.complete_server_send(OWNER, first, server_peer(0x0a00_0202, 50001), 88),
        Err(SocketError::InvalidState)
    );
    assert_eq!(
        sockets.complete_server_send(OWNER, first, first_peer, 88),
        Ok(4)
    );
    assert_eq!(sockets.push_receive(OWNER, first, b"ping"), Ok(4));
    let mut input = [0; 4];
    assert_eq!(sockets.receive(OWNER, first, &mut input), Ok(4));
    assert_eq!(&input, b"ping");
    sockets
        .mark_server_read_closed(OWNER, first, first_peer)
        .unwrap();
    assert_eq!(
        sockets.status(OWNER, first).unwrap().state,
        SocketState::ReadClosed
    );
    sockets.shutdown(OWNER, first, false, true).unwrap();
    assert_eq!(
        sockets.status(OWNER, first).unwrap().state,
        SocketState::WriteClosed
    );
    sockets
        .mark_server_closed(OWNER, first, first_peer)
        .unwrap();
    assert_eq!(
        sockets.status(OWNER, first).unwrap().state,
        SocketState::Closed
    );
    assert_eq!(
        sockets.local_port(OWNER, first).unwrap(),
        SOCKET_LISTENER_PORT_MIN
    );
    assert!(sockets.status(OTHER, first).is_err());
    let second = sockets.accept(OWNER, listener).unwrap();
    assert_ne!(first, second);
    assert_eq!(
        sockets.accept(OWNER, listener),
        Err(SocketError::WouldBlock)
    );
    sockets.close(OWNER, listener).unwrap();
    assert!(!sockets.owns_local_port(SOCKET_LISTENER_PORT_MIN));
}

#[test]
fn local_ports_are_exclusive_across_process_socket_sets_and_reusable_after_close() {
    let mut first = SocketSet::new();
    let second = SocketSet::new();
    let listener = first.open(OWNER, SocketProtocol::TcpStream).unwrap();
    assert!(local_port_is_available(
        &[&first, &second],
        SOCKET_LISTENER_PORT_MIN
    ));
    first
        .bind(OWNER, listener, SOCKET_LISTENER_PORT_MIN)
        .unwrap();
    assert!(!local_port_is_available(
        &[&first, &second],
        SOCKET_LISTENER_PORT_MIN
    ));
    first.close(OWNER, listener).unwrap();
    assert!(local_port_is_available(
        &[&first, &second],
        SOCKET_LISTENER_PORT_MIN
    ));
}

#[test]
fn failed_wire_peer_is_removed_from_the_listener_backlog() {
    let mut sockets = SocketSet::new();
    let listener = sockets.open(OWNER, SocketProtocol::TcpStream).unwrap();
    sockets
        .bind(OWNER, listener, SOCKET_LISTENER_PORT_MIN)
        .unwrap();
    sockets.listen(OWNER, listener, 1).unwrap();
    let peer = server_peer(0x0a00_0202, 50000);
    sockets.queue_incoming(OWNER, listener, peer).unwrap();
    sockets.drop_incoming(OWNER, listener, peer).unwrap();
    assert_eq!(
        sockets.accept(OWNER, listener),
        Err(SocketError::WouldBlock)
    );
    assert_eq!(
        sockets.drop_incoming(OWNER, listener, peer),
        Err(SocketError::InvalidState)
    );
}

#[test]
fn accept_capacity_failure_preserves_the_oldest_pending_peer() {
    let mut sockets = SocketSet::new();
    let listener = sockets.open(OWNER, SocketProtocol::TcpStream).unwrap();
    sockets
        .bind(OWNER, listener, SOCKET_LISTENER_PORT_MIN)
        .unwrap();
    sockets.listen(OWNER, listener, 1).unwrap();
    sockets
        .queue_incoming(OWNER, listener, server_peer(0x0a00_0202, 50000))
        .unwrap();
    let first = sockets.open(OWNER, SocketProtocol::Udp).unwrap();
    let second = sockets.open(OWNER, SocketProtocol::Udp).unwrap();
    let third = sockets.open(OWNER, SocketProtocol::Udp).unwrap();
    assert_eq!(sockets.accept(OWNER, listener), Err(SocketError::Capacity));
    assert_ne!(
        sockets.status(OWNER, listener).unwrap().readiness & SOCKET_READY_ACCEPT,
        0
    );
    sockets.close(OWNER, first).unwrap();
    let accepted = sockets.accept(OWNER, listener).unwrap();
    assert_eq!(sockets.remote(OWNER, accepted), Ok((0x0a00_0202, 50000)));
    sockets.close(OWNER, second).unwrap();
    sockets.close(OWNER, third).unwrap();
}

#[test]
fn shutdown_cancels_queued_work_and_owner_exit_reclaims_everything() {
    let mut sockets = SocketSet::new();
    let a = sockets.open(OWNER, SocketProtocol::Udp).unwrap();
    let b = sockets.open(OWNER, SocketProtocol::TcpStream).unwrap();
    sockets.connect(OWNER, a, 1, 1).unwrap();
    sockets.send(OWNER, a, b"queued").unwrap();
    sockets.shutdown(OWNER, a, false, true).unwrap();
    assert_eq!(sockets.status(OWNER, a).unwrap().queued_send, 0);
    assert_eq!(sockets.close_owner(OWNER), 2);
    assert!(sockets.status(OWNER, a).is_err());
    assert!(sockets.status(OWNER, b).is_err());
}

#[test]
fn capacity_is_hard_bounded_and_failed_sockets_are_observable() {
    let mut sockets = SocketSet::new();
    let mut handles = [0; SOCKET_CAPACITY];
    for handle in &mut handles {
        *handle = sockets.open(OWNER, SocketProtocol::TcpStream).unwrap();
    }
    assert_eq!(
        sockets.open(OWNER, SocketProtocol::Udp),
        Err(SocketError::Capacity)
    );
    sockets.fail(OWNER, handles[0]).unwrap();
    let status = sockets.status(OWNER, handles[0]).unwrap();
    assert_eq!(status.state, SocketState::Failed);
    assert_ne!(status.readiness & SOCKET_READY_ERROR, 0);
    assert_ne!(status.readiness & SOCKET_READY_CLOSED, 0);
}

#[test]
fn protocol_numbers_decode_exactly() {
    assert_eq!(SocketProtocol::from_raw(1), Some(SocketProtocol::Udp));
    assert_eq!(SocketProtocol::from_raw(2), Some(SocketProtocol::TcpStream));
    assert_eq!(SocketProtocol::from_raw(0), None);
    assert_eq!(SocketProtocol::from_raw(3), None);
}

#[test]
fn handles_list_only_the_owner_sockets_in_slot_order() {
    let mut sockets = SocketSet::new();
    let a = sockets.open(OWNER, SocketProtocol::Udp).unwrap();
    let b = sockets.open(OTHER, SocketProtocol::Udp).unwrap();
    let c = sockets.open(OWNER, SocketProtocol::TcpStream).unwrap();
    assert_eq!(sockets.handles(OWNER), vec![a, c]);
    assert_eq!(sockets.handles(OTHER), vec![b]);
    assert_eq!(sockets.len_owner(OWNER), 2);
    assert_eq!(sockets.close_owner(OWNER), 2);
    assert_eq!(sockets.len_owner(OWNER), 0);
    assert_eq!(sockets.len_owner(OTHER), 1);
}

#[test]
fn shutdown_needs_a_direction_and_closes_both_ways_in_turn() {
    let mut sockets = SocketSet::new();
    let handle = sockets.open(OWNER, SocketProtocol::Udp).unwrap();
    assert_eq!(sockets.shutdown(OWNER, handle, false, false), Err(SocketError::InvalidState));
    sockets.connect(OWNER, handle, 1, 1).unwrap();
    sockets.shutdown(OWNER, handle, true, false).unwrap();
    assert_eq!(sockets.status(OWNER, handle).unwrap().state, SocketState::ReadClosed);
    sockets.shutdown(OWNER, handle, false, true).unwrap();
    assert_eq!(sockets.status(OWNER, handle).unwrap().state, SocketState::Closed);
    assert_eq!(sockets.shutdown(OWNER, handle, true, true), Err(SocketError::InvalidState));
}

#[test]
fn overflowing_completion_fails_the_socket() {
    let mut sockets = SocketSet::new();
    let handle = sockets.open(OWNER, SocketProtocol::Udp).unwrap();
    sockets.connect(OWNER, handle, 7, 53).unwrap();
    sockets.send(OWNER, handle, b"q").unwrap();
    let mut request = [0u8; SOCKET_BUFFER_CAPACITY];
    sockets.begin_udp_send(OWNER, handle, 5, &mut request).unwrap();
    let big = [1u8; SOCKET_BUFFER_CAPACITY + 1];
    assert_eq!(sockets.complete_udp_send(OWNER, handle, 5, &big), Err(SocketError::WouldBlock));
    assert_eq!(sockets.status(OWNER, handle).unwrap().state, SocketState::Failed);
    assert_eq!(sockets.pending_udp_handle(OWNER), None);
}
