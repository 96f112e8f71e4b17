use genos::network_device::{
    bar_base, boundary_for, is_virtio_net, mac_from_prom, notify_address, virtio_regions,
    wire_length, Ne2000, NetworkDevice, PacketBuffer, PacketOwner, RingRead, RxCompletion,
    RxHeader, VirtioNet, VirtioPciRegions, MAX_FRAME, VIRTQUEUE_SIZE,
};

fn put32(c: &mut [u8], at: usize, v: u32) {
    c[at..at + 4].copy_from_slice(&v.to_le_bytes());
}

/// A configuration space with a capability list holding the three virtio
/// regions in BAR 4 (64-bit memory at 0x1_0000_0000).
fn virtio_config() -> Vec<u8> {
    let mut c = vec![0u8; 256];
    put32(&mut c, 0, 0x1041_1af4);
    c[0x06] = 0x10;
    c[0x0b] = 0x02;
    put32(&mut c, 0x20, 0x0000_0004);
    put32(&mut c, 0x24, 0x0000_0001);
    c[0x34] = 0x40;
    // common configuration
    c[0x40] = 0x09;
    c[0x41] = 0x50;
    c[0x42] = 16;
    c[0x43] = 1;
    c[0x44] = 4;
    put32(&mut c, 0x48, 0x0000);
    put32(&mut c, 0x4c, 0x1000);
    // notify area
    c[0x50] = 0x09;
    c[0x51] = 0x64;
    c[0x52] = 20;
    c[0x53] = 2;
    c[0x54] = 4;
    put32(&mut c, 0x58, 0x3000);
    put32(&mut c, 0x5c, 0x1000);
    put32(&mut c, 0x60, 4);
    // device configuration
    c[0x64] = 0x09;
    c[0x65] = 0x00;
    c[0x66] = 16;
    c[0x67] = 4;
    c[0x68] = 4;
    put32(&mut c, 0x6c, 0x2000);
    put32(&mut c, 0x70, 0x1000);
    c
}

#[test]
fn virtio_net_ids() {
    assert!(is_virtio_net(0x1000_1af4, 0x02));
    assert!(is_virtio_net(0x1041_1af4, 0x02));
    assert!(!is_virtio_net(0x1041_1af4, 0x01));
    assert!(!is_virtio_net(0x1080_1af4, 0x02));
    assert!(!is_virtio_net(0x1000_8086, 0x02));
}

#[test]
fn bar_decoding() {
    let c = virtio_config();
    assert_eq!(bar_base(&c, 4), Some(0x1_0000_0000));
    assert_eq!(bar_base(&c, 0), None);
    assert_eq!(bar_base(&c, 6), None);
    let mut io = c.clone();
    put32(&mut io, 0x10, 0xc001);
    assert_eq!(bar_base(&io, 0), None);
    put32(&mut io, 0x10, 0xfebf_1000);
    assert_eq!(bar_base(&io, 0), Some(0xfebf_1000));
}

#[test]
fn capability_walk_finds_regions() {
    let c = virtio_config();
    assert_eq!(
        virtio_regions(&c),
        Some(VirtioPciRegions {
            common: 0x1_0000_0000,
            notify: 0x1_0000_3000,
            notify_multiplier: 4,
            device: 0x1_0000_2000,
        })
    );
}

#[test]
fn capability_walk_needs_every_region() {
    let mut c = virtio_config();
    c[0x60] = 0;
    assert_eq!(virtio_regions(&c), None);
    let mut c = virtio_config();
    c[0x51] = 0;
    assert_eq!(virtio_regions(&c), None);
    let mut c = virtio_config();
    c[0x06] = 0;
    assert_eq!(virtio_regions(&c), None);
}

#[test]
fn notify_addresses() {
    assert_eq!(notify_address(0x1000, 2, 4), 0x1008);
    assert_eq!(notify_address(u64::MAX, 1, 1), 0);
}

#[test]
fn frames_pad_to_minimum() {
    assert_eq!(wire_length(10), Some(60));
    assert_eq!(wire_length(MAX_FRAME), Some(MAX_FRAME));
    assert_eq!(wire_length(MAX_FRAME + 1), None);
    assert_eq!(VirtioNet::tx_layout(100), Some((100, 112)));
}

#[test]
fn virtio_receive_recycles_descriptors() {
    let mut v = VirtioNet::new();
    v.rings_ready();
    assert_eq!(v.rx_pending(0), None);
    assert_eq!(v.rx_pending(1), Some(0));
    assert_eq!(
        v.complete_rx(3, 12 + 64),
        RxCompletion { frame: Some((3, 64)), recycle: Some((0, 3)), available_index: 9 }
    );
    assert_eq!(v.rx_used, 1);
    assert_eq!(
        v.complete_rx(3, 4),
        RxCompletion { frame: None, recycle: Some((1, 3)), available_index: 10 }
    );
    assert_eq!(
        v.complete_rx(9, 100),
        RxCompletion { frame: None, recycle: None, available_index: 10 }
    );
    assert_eq!(v.rx_used, 3);
}

#[test]
fn virtio_transmit_completion() {
    let mut v = VirtioNet::new();
    v.rings_ready();
    assert_eq!(v.submit_tx(), (0, 1));
    assert_eq!(v.tx_pending(0), None);
    assert_eq!(v.tx_pending(1), Some(0));
    assert!(v.complete_tx(0));
    assert!(!v.complete_tx(1));
    assert_eq!(v.tx_used, 2);
}

#[test]
fn ne2000_ring_reads_wrap() {
    assert_eq!(
        Ne2000::ring_segments(0x7f00, 100),
        RingRead { first: (0x7f00, 100), second: None }
    );
    assert_eq!(
        Ne2000::ring_segments(0x7f80, 0x100),
        RingRead { first: (0x7f80, 0x80), second: Some((0x4600, 0x80)) }
    );
}

#[test]
fn ne2000_headers() {
    let mut n = Ne2000::new();
    assert_eq!(n.rx_pending(0x47), None);
    assert_eq!(n.rx_pending(0x50), Some(0x4700));
    assert_eq!(
        n.accept_header(0x50, [0x01, 0x49, 64, 0]),
        RxHeader::Frame { payload: 0x4704, len: 60, next: 0x49 }
    );
    assert_eq!(n.finish_receive(0x49), 0x48);
    assert_eq!(n.next_rx, 0x49);
    assert_eq!(n.accept_header(0x50, [0x00, 0x4a, 64, 0]), RxHeader::Reset { boundary: 0x4f });
    assert_eq!(n.next_rx, 0x50);
    assert_eq!(n.accept_header(0x90, [0x01, 0x4a, 0, 8]), RxHeader::Reset { boundary: 0x46 });
    assert_eq!(n.next_rx, 0x47);
    assert_eq!(boundary_for(0x46), 0x7f);
}

#[test]
fn ne2000_prom_addresses() {
    let mut prom = [0u8; 32];
    assert_eq!(mac_from_prom(&prom), None);
    for i in 0..6 {
        prom[2 * i] = 0x52 + i as u8;
        prom[2 * i + 1] = 0xff;
    }
    assert_eq!(mac_from_prom(&prom), Some([0x52, 0x53, 0x54, 0x55, 0x56, 0x57]));
    let ones = [0xffu8; 32];
    assert_eq!(mac_from_prom(&ones), None);
}

#[test]
fn device_selection_prefers_virtio() {
    let mut d = NetworkDevice::new();
    assert_eq!(d.driver_name(), "unavailable");
    assert_eq!(d.transport_name(), "none");
    assert_eq!(d.receive_buffer_count(), 0);
    assert!(!d.discover(None, None));
    assert_eq!(d, NetworkDevice::Unavailable);
    let mut ne = Ne2000::new();
    ne.mac = [2, 0, 0, 0, 0, 1];
    assert!(d.discover(None, Some(ne)));
    assert_eq!(d.driver_name(), "ne2000-pio-legacy-fallback");
    assert_eq!(d.mac(), [2, 0, 0, 0, 0, 1]);
    assert_eq!(d.receive_buffer_count(), 1);
    assert!(d.discover(Some(VirtioNet::new()), Some(ne)));
    assert_eq!(d.driver_name(), "virtio-net-pci");
    assert_eq!(d.transport_name(), "modern-pci");
    assert_eq!(d.receive_buffer_count(), VIRTQUEUE_SIZE);
}

#[test]
fn packet_buffers_change_hands() {
    let mut p = PacketBuffer::empty();
    assert_eq!(p.owner, PacketOwner::Free);
    let source = [9u8, 8, 7, 6, 5];
    p.deliver(&source, 1, 3);
    assert_eq!(p.owner, PacketOwner::Stack);
    assert_eq!(p.len, 3);
    assert_eq!(&p.bytes[..4], &[8, 7, 6, 0]);
}
