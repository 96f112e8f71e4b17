use genos::dhcp::{dhcp_reply, DhcpAction, DhcpClient, DhcpPhase, DHCP_POLL_LIMIT, DHCP_XID};
use genos::network::{build_dhcp, transport_checksum};

fn ip_checksum(header: &[u8]) -> u16 {
    let mut sum: u32 = 0;
    for pair in header.chunks(2) {
        sum += u32::from(u16::from_be_bytes([pair[0], pair[1]]));
    }
    while sum > 0xffff {
        sum = (sum & 0xffff) + (sum >> 16);
    }
    !(sum as u16)
}

/// A DHCP reply of `kind` offering 10.0.2.15, in a broadcast UDP frame
/// from the server at 10.0.2.2.
fn reply_frame(kind: u8, xid: u32, source_port: u16) -> Vec<u8> {
    let mut payload = [0u8; 300];
    let len = build_dhcp(&mut payload, [2, 0, 0, 0, 0, 1], xid, 3, None, None).unwrap();
    let mut dhcp = payload.to_vec();
    dhcp[0] = 2;
    dhcp[16..20].copy_from_slice(&[10, 0, 2, 15]);
    let mut cursor = len - 1;
    for option in [&[53u8, 1, kind][..], &[1, 4, 255, 255, 255, 0], &[3, 4, 10, 0, 2, 2], &[6, 4, 10, 0, 2, 3], &[54, 4, 10, 0, 2, 2], &[255]] {
        dhcp[cursor..cursor + option.len()].copy_from_slice(option);
        cursor += option.len();
    }
    let source = [10, 0, 2, 2];
    let destination = [255, 255, 255, 255];
    let mut udp = Vec::new();
    udp.extend_from_slice(&source_port.to_be_bytes());
    udp.extend_from_slice(&68u16.to_be_bytes());
    udp.extend_from_slice(&((8 + dhcp.len()) as u16).to_be_bytes());
    udp.extend_from_slice(&[0, 0]);
    udp.extend_from_slice(&dhcp);
    let sum = transport_checksum(source, destination, 17, &udp);
    udp[6..8].copy_from_slice(&sum.to_be_bytes());
    let mut ip = vec![0x45, 0, 0, 0, 0, 0, 0, 0, 64, 17, 0, 0];
    ip[2..4].copy_from_slice(&((20 + udp.len()) as u16).to_be_bytes());
    ip.extend_from_slice(&source);
    ip.extend_from_slice(&destination);
    let hsum = ip_checksum(&ip);
    ip[10..12].copy_from_slice(&hsum.to_be_bytes());
    let mut frame = vec![0xff; 6];
    frame.extend_from_slice(&[2, 0, 0, 0, 0, 2]);
    frame.extend_from_slice(&[0x08, 0x00]);
    frame.extend_from_slice(&ip);
    frame.extend_from_slice(&udp);
    frame
}

#[test]
fn replies_are_read_from_server_frames_only() {
    let offer = reply_frame(2, DHCP_XID, 67);
    let config = dhcp_reply(&offer, DHCP_XID, 2).unwrap();
    assert_eq!(config.address, [10, 0, 2, 15]);
    assert_eq!(config.subnet, [255, 255, 255, 0]);
    assert_eq!(config.gateway, [10, 0, 2, 2]);
    assert_eq!(config.dns, [10, 0, 2, 3]);
    assert_eq!(config.server, [10, 0, 2, 2]);
    assert!(dhcp_reply(&offer, DHCP_XID, 5).is_none());
    assert!(dhcp_reply(&offer, DHCP_XID ^ 1, 2).is_none());
    assert!(dhcp_reply(&reply_frame(2, DHCP_XID, 1067), DHCP_XID, 2).is_none());
    let mut corrupt = offer.clone();
    let last = corrupt.len() - 2;
    corrupt[last] ^= 0xff;
    assert!(dhcp_reply(&corrupt, DHCP_XID, 2).is_none());
}

#[test]
fn discover_offer_request_ack_configures() {
    let (mut client, action) = DhcpClient::start();
    assert_eq!(action, DhcpAction::SendDiscover);
    assert_eq!(client.on_sent(true), DhcpAction::Poll);
    assert_eq!(client.on_poll(None), DhcpAction::Poll);
    let ack = reply_frame(5, DHCP_XID, 67);
    assert_eq!(client.on_poll(Some(&ack)), DhcpAction::Poll);
    let offer = reply_frame(2, DHCP_XID, 67);
    assert_eq!(
        client.on_poll(Some(&offer)),
        DhcpAction::SendRequest { address: [10, 0, 2, 15], server: [10, 0, 2, 2] }
    );
    assert_eq!(client.on_sent(true), DhcpAction::Poll);
    assert_eq!(client.on_poll(Some(&offer)), DhcpAction::Poll);
    match client.on_poll(Some(&ack)) {
        DhcpAction::Configure(config) => {
            assert_eq!(config.address, [10, 0, 2, 15]);
            assert_eq!(config.gateway, [10, 0, 2, 2]);
        }
        other => panic!("expected the configuration, got {other:?}"),
    }
    assert!(matches!(client.phase, DhcpPhase::Bound(_)));
    assert_eq!(client.attempt, 1);
}

#[test]
fn refused_send_starts_the_next_attempt_and_three_failures_give_up() {
    let (mut client, _) = DhcpClient::start();
    assert_eq!(client.on_sent(false), DhcpAction::SendDiscover);
    assert_eq!(client.attempt, 2);
    assert_eq!(client.on_sent(false), DhcpAction::SendDiscover);
    assert_eq!(client.attempt, 3);
    assert_eq!(client.on_sent(false), DhcpAction::GiveUp);
    assert_eq!(client.phase, DhcpPhase::Failed);
    assert_eq!(client.on_poll(None), DhcpAction::GiveUp);
}

#[test]
fn a_silent_wait_ends_the_attempt_at_the_poll_limit() {
    let (mut client, _) = DhcpClient::start();
    client.on_sent(true);
    client.polls = DHCP_POLL_LIMIT - 2;
    assert_eq!(client.on_poll(None), DhcpAction::Poll);
    assert_eq!(client.on_poll(None), DhcpAction::SendDiscover);
    assert_eq!(client.attempt, 2);
    assert_eq!(client.polls, 0);
}
