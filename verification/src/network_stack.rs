//! The IPv4 stack's passive TCP streams over a frame device: the frames the
//! stack sends, the segments it takes from received frames, and the timers
//! each stream runs per tick. The device is a pair of frame queues; the
//! driver loop outside the library moves frames between them and the card.
use vstd::prelude::*;
use std::collections::VecDeque;
use crate::net::{
    lemma_checksum_inserted, lemma_word_sum_concat, word_sum, words, fold, Ipv4Info, TcpInfo,
    checksum, parse_ipv4_frame, parse_tcp, spec_checksum, spec_parse_ipv4, spec_parse_tcp,
    spec_transport_checksum_valid, transport_checksum_valid,
};
use crate::network::{
    pseudo_header, receive_window, sat_add, spec_open, spec_receive_window, spec_stream_segment, stream_segment,
    stream_wf, transport_checksum, wrap_add, EarlyStreamData, PassiveTcpStreamProgress, PassiveTcpSyn, Segment,
    SegmentModel, SegmentReply, StreamModel, StreamOperation, StreamStats, PASSIVE_TCP_HANDSHAKE_SLOTS,
    PASSIVE_TCP_MAX_CWND, PASSIVE_TCP_MSS, PASSIVE_TCP_RECEIVE_CAPACITY, PASSIVE_TCP_RETRY_TICKS,
    PASSIVE_TCP_STREAM_BUFFER_CAPACITY, PASSIVE_TCP_STREAM_IDLE_TICKS, PASSIVE_TCP_STREAM_SLOTS,
};
use crate::socket::{peer_eq, TcpServerPeer};
use crate::ipv6::{
    control_frame, host_wf, spec_poll, spec_receive, Host, HostModel, Message, State, FRAME_CAPACITY, HEADER,
};
use crate::client::{tcp_slot_model, udp_slot_model, AsyncTcpModel, AsyncTcpOperation, AsyncUdpModel, AsyncUdpOperation};
use crate::handshake::{
    find_handshake, handshake_slot_model, lemma_find_handshake, handshake_wf, spec_handle_handshake, spec_offer_syn,
    syn_slot_model, HandshakeModel, HandshakeOperation, SynModel,
};
use crate::wire::{be16, be32, spec_be32_bytes, be16_bytes, be32_bytes};

verus! {

/// The largest Ethernet frame the device carries.
pub const MAX_FRAME: usize = 1518;
/// The largest TCP segment, header included, that the stack builds or keeps.
pub const TCP_SEGMENT_CAPACITY: usize = 1400;

/// The two big-endian bytes of `v`.
pub open spec fn be16_seq(v: u16) -> Seq<u8> {
    seq![(v / 256) as u8, (v % 256) as u8]
}

/// A TCP segment: the twenty-byte header with a zero checksum, then `payload`.
pub open spec fn tcp_segment(
    source_port: u16,
    destination_port: u16,
    sequence: u32,
    acknowledgment: u32,
    flags: u8,
    window: u16,
    payload: Seq<u8>,
) -> Seq<u8> {
    be16_seq(source_port) + be16_seq(destination_port) + spec_be32_bytes(sequence) + spec_be32_bytes(
        acknowledgment,
    ) + seq![0x50u8, flags] + be16_seq(window) + seq![0u8, 0u8, 0u8, 0u8] + payload
}

/// `segment` with its checksum over the IPv4 pseudo-header in bytes 16 and 17.
pub open spec fn with_tcp_checksum(source: Seq<u8>, destination: Seq<u8>, segment: Seq<u8>) -> Seq<u8> {
    let c = spec_checksum(pseudo_header(source, destination, 6, segment.len() as int) + segment);
    segment.update(16, (c / 256) as u8).update(17, (c % 256) as u8)
}

/// An IPv4 header of twenty bytes with a zero checksum: no options, don't
/// fragment, a time to live of 64.
pub open spec fn ipv4_header(total: u16, id: u16, protocol: u8, source: Seq<u8>, destination: Seq<u8>) -> Seq<u8> {
    seq![0x45u8, 0u8] + be16_seq(total) + be16_seq(id) + seq![0x40u8, 0u8, 64u8, protocol, 0u8, 0u8]
        + source + destination
}

/// An Ethernet frame that carries one IPv4 datagram.
pub open spec fn ipv4_frame(
    destination_mac: Seq<u8>,
    source_mac: Seq<u8>,
    id: u16,
    source: Seq<u8>,
    destination: Seq<u8>,
    protocol: u8,
    payload: Seq<u8>,
) -> Seq<u8> {
    let header = ipv4_header((20 + payload.len()) as u16, id, protocol, source, destination);
    let c = spec_checksum(header);
    destination_mac + source_mac + seq![8u8, 0u8] + header.update(10, (c / 256) as u8).update(
        11,
        (c % 256) as u8,
    ) + payload
}

/// Frames waiting to be taken from the card and frames waiting to be put
/// on it.
pub struct FrameDevice {
    pub mac: [u8; 6],
    pub incoming: VecDeque<Vec<u8>>,
    pub outgoing: Vec<Vec<u8>>,
    pub fail_transmit: bool,
}

proof fn lemma_bytes_deep_view(v: Vec<u8>)
    ensures
        v.deep_view() == v@,
{
    assert(v.deep_view() =~= v@);
}

pub(crate) fn bytes_of(s: &[u8]) -> (r: Vec<u8>)
    ensures
        r@ == s@,
{
    let mut r: Vec<u8> = Vec::new();
    let mut i: usize = 0;
    while i < s.len()
        invariant
            i <= s@.len(),
            r@ == s@.subrange(0, i as int),
        decreases s@.len() - i,
    {
        r.push(s[i]);
        i += 1;
        assert(r@ =~= s@.subrange(0, i as int));
    }
    assert(s@.subrange(0, s@.len() as int) =~= s@);
    r
}

impl FrameDevice {
    pub fn new(mac: [u8; 6]) -> (d: Self)
        ensures
            d.mac == mac,
            d.incoming@.len() == 0,
            d.outgoing@.len() == 0,
            !d.fail_transmit,
    {
        FrameDevice { mac, incoming: VecDeque::new(), outgoing: Vec::new(), fail_transmit: false }
    }

    pub fn mac(&self) -> (r: [u8; 6])
        ensures
            r == self.mac,
    {
        self.mac
    }

    /// Queues a copy of `bytes` for the card, unless the card refuses it.
    pub fn transmit(&mut self, bytes: &[u8]) -> (r: bool)
        ensures
            r == !old(self).fail_transmit,
            final(self).outgoing.deep_view() == if r {
                old(self).outgoing.deep_view().push(bytes@)
            } else {
                old(self).outgoing.deep_view()
            },
            final(self).incoming == old(self).incoming,
            final(self).mac == old(self).mac,
            final(self).fail_transmit == old(self).fail_transmit,
    {
        if self.fail_transmit {
            return false;
        }
        let frame = bytes_of(bytes);
        let ghost before = self.outgoing.deep_view();
        self.outgoing.push(frame);
        proof {
            lemma_bytes_deep_view(frame);
            assert(self.outgoing.deep_view() =~= before.push(bytes@));
        }
        true
    }

    /// The oldest received frame, if any.
    pub fn receive(&mut self) -> (r: Option<Vec<u8>>)
        ensures
            old(self).incoming@.len() == 0 ==> r is None && final(self).incoming@ == old(self).incoming@,
            old(self).incoming@.len() > 0 ==> r is Some && r->Some_0@ == old(self).incoming.deep_view()[0]
                && final(self).incoming.deep_view() == old(self).incoming.deep_view().drop_first(),
            final(self).outgoing == old(self).outgoing,
            final(self).mac == old(self).mac,
            final(self).fail_transmit == old(self).fail_transmit,
    {
        let ghost before = self.incoming.deep_view();
        let r = self.incoming.pop_front();
        proof {
            if r is Some {
                lemma_bytes_deep_view(r->Some_0);
                assert(self.incoming.deep_view() =~= before.drop_first());
            }
        }
        r
    }
}

/// The device's queues and the stack's address and next datagram
/// identifier, as plain values.
pub ghost struct LinkModel {
    pub mac: Seq<u8>,
    pub incoming: Seq<Seq<u8>>,
    pub outgoing: Seq<Seq<u8>>,
    pub fail_transmit: bool,
    pub address: Seq<u8>,
    pub ip_id: u16,
}

/// The stack's whole state, as plain values.
pub ghost struct StackModel {
    pub link: LinkModel,
    pub available: bool,
    pub subnet: Seq<u8>,
    pub gateway: Seq<u8>,
    pub dns: Seq<u8>,
    pub next_port: u16,
    pub async_udp: Option<AsyncUdpModel>,
    pub async_tcp: Option<AsyncTcpModel>,
    pub ipv6: Option<HostModel>,
    pub control_tick: u64,
    pub ipv6_reported: bool,
    pub handshakes: Seq<Option<HandshakeModel>>,
    pub pending_syns: Seq<Option<SynModel>>,
    pub streams: Seq<Option<StreamModel>>,
    pub cursor: usize,
    pub stats: StreamStats,
    pub retransmissions: u64,
    pub congestion_events: u64,
    pub min_cwnd: usize,
    pub service_started: Option<u64>,
    pub service_finished: u64,
}

/// The IPv4 side of the network stack as far as passive TCP streams go.
pub struct NetworkStack {
    pub device: FrameDevice,
    pub available: bool,
    pub address: [u8; 4],
    pub subnet: [u8; 4],
    pub gateway: [u8; 4],
    pub dns: [u8; 4],
    pub next_port: u16,
    pub ip_id: u16,
    pub async_udp: Option<AsyncUdpOperation>,
    pub async_tcp: Option<AsyncTcpOperation>,
    pub ipv6: Option<Host>,
    pub control_tick: u64,
    pub ipv6_reported: bool,
    pub passive_tcp: Vec<Option<HandshakeOperation>>,
    pub pending_syns: Vec<Option<PassiveTcpSyn>>,
    pub passive_streams: Vec<Option<StreamOperation>>,
    pub passive_stream_cursor: usize,
    pub stream_stats: StreamStats,
    pub tcp_retransmissions: u64,
    pub tcp_congestion_events: u64,
    pub tcp_min_cwnd: usize,
    pub tcp_service_started: Option<u64>,
    pub tcp_service_finished: u64,
}

pub open spec fn slot_model(slot: Option<StreamOperation>) -> Option<StreamModel> {
    match slot {
        Some(op) => Some(op@),
        None => None,
    }
}

/// Every slot exists, every handshake and stream in one is well formed, and
/// so is the IPv6 host.
pub open spec fn stack_wf(m: StackModel) -> bool {
    &&& (m.ipv6 matches Some(h) ==> host_wf(h))
    &&& m.handshakes.len() == PASSIVE_TCP_HANDSHAKE_SLOTS
    &&& m.pending_syns.len() == PASSIVE_TCP_HANDSHAKE_SLOTS
    &&& forall|i: int| 0 <= i < m.handshakes.len() && #[trigger] m.handshakes[i] is Some ==> handshake_wf(m.handshakes[i]->Some_0)
    &&& m.streams.len() == PASSIVE_TCP_STREAM_SLOTS
    &&& m.cursor < PASSIVE_TCP_STREAM_SLOTS
    &&& forall|i: int| 0 <= i < m.streams.len() && #[trigger] m.streams[i] is Some ==> stream_wf(m.streams[i]->Some_0)
}

/// The identifier after `id`, modulo 2^16.
pub open spec fn next_id(id: u16) -> u16 {
    if id == u16::MAX { 0 } else { (id + 1) as u16 }
}

/// Sends one IPv4 datagram: refused without a frame when it would not fit
/// one; otherwise it takes the next identifier, and the device may still
/// refuse the frame.
#[verifier::opaque]
pub open spec fn spec_send_ipv4(
    m: LinkModel,
    mac: Seq<u8>,
    source: Seq<u8>,
    destination: Seq<u8>,
    protocol: u8,
    payload: Seq<u8>,
) -> (LinkModel, bool) {
    if 34 + payload.len() > MAX_FRAME {
        (m, false)
    } else {
        let frame = ipv4_frame(mac, m.mac, m.ip_id, source, destination, protocol, payload);
        let m1 = LinkModel { ip_id: next_id(m.ip_id), ..m };
        if m.fail_transmit {
            (m1, false)
        } else {
            (LinkModel { outgoing: m.outgoing.push(frame), ..m1 }, true)
        }
    }
}

/// Sends one TCP segment from the stack's address with the given receive
/// window; a payload that would not fit a segment is refused.
#[verifier::opaque]
pub open spec fn spec_send_tcp(
    m: LinkModel,
    mac: Seq<u8>,
    destination: Seq<u8>,
    source_port: u16,
    destination_port: u16,
    sequence: u32,
    acknowledgment: u32,
    flags: u8,
    payload: Seq<u8>,
    window: u16,
) -> (LinkModel, bool) {
    if 20 + payload.len() > TCP_SEGMENT_CAPACITY {
        (m, false)
    } else {
        let segment = tcp_segment(source_port, destination_port, sequence, acknowledgment, flags, window, payload);
        spec_send_ipv4(m, mac, m.address, destination, 6, with_tcp_checksum(m.address, destination, segment))
    }
}

/// No bytes.
pub(crate) fn no_payload() -> (r: &'static [u8])
    ensures
        r@ == Seq::<u8>::empty(),
{
    let r: &'static [u8] = &[];
    assert(r@ =~= Seq::<u8>::empty());
    r
}

pub(crate) fn push_all(v: &mut Vec<u8>, s: &[u8])
    ensures
        final(v)@ == old(v)@ + s@,
{
    let mut i: usize = 0;
    while i < s.len()
        invariant
            i <= s@.len(),
            v@ == old(v)@ + s@.subrange(0, i as int),
        decreases s@.len() - i,
    {
        v.push(s[i]);
        i += 1;
        assert(v@ =~= old(v)@ + s@.subrange(0, i as int));
    }
    assert(s@.subrange(0, s@.len() as int) =~= s@);
}

pub(crate) fn push_be16(v: &mut Vec<u8>, x: u16)
    ensures
        final(v)@ == old(v)@ + be16_seq(x),
{
    let (hi, lo) = be16_bytes(x);
    assert(hi == x / 256 && lo == x % 256) by (nonlinear_arith)
        requires
            256 * hi + lo == x,
            hi < 256,
            lo < 256,
    ;
    v.push(hi);
    v.push(lo);
    assert(v@ =~= old(v)@ + be16_seq(x));
}

pub(crate) fn push_be32(v: &mut Vec<u8>, x: u32)
    ensures
        final(v)@ == old(v)@ + spec_be32_bytes(x),
{
    let b = be32_bytes(x);
    v.push(b[0]);
    v.push(b[1]);
    v.push(b[2]);
    v.push(b[3]);
    assert(v@ =~= old(v)@ + spec_be32_bytes(x));
}

impl NetworkStack {
    pub open spec fn view(&self) -> StackModel {
        StackModel {
            link: LinkModel {
                mac: self.device.mac@,
                incoming: self.device.incoming.deep_view(),
                outgoing: self.device.outgoing.deep_view(),
                fail_transmit: self.device.fail_transmit,
                address: self.address@,
                ip_id: self.ip_id,
            },
            available: self.available,
            subnet: self.subnet@,
            gateway: self.gateway@,
            dns: self.dns@,
            next_port: self.next_port,
            async_udp: udp_slot_model(self.async_udp),
            async_tcp: tcp_slot_model(self.async_tcp),
            ipv6: match self.ipv6 {
                Some(h) => Some(h.model()),
                None => None,
            },
            control_tick: self.control_tick,
            ipv6_reported: self.ipv6_reported,
            handshakes: self.passive_tcp@.map_values(|slot: Option<HandshakeOperation>| handshake_slot_model(slot)),
            pending_syns: self.pending_syns@.map_values(|slot: Option<PassiveTcpSyn>| syn_slot_model(slot)),
            streams: self.passive_streams@.map_values(|slot: Option<StreamOperation>| slot_model(slot)),
            cursor: self.passive_stream_cursor,
            stats: self.stream_stats,
            retransmissions: self.tcp_retransmissions,
            congestion_events: self.tcp_congestion_events,
            min_cwnd: self.tcp_min_cwnd,
            service_started: self.tcp_service_started,
            service_finished: self.tcp_service_finished,
        }
    }

    /// A stack with no address, no streams and an idle device.
    pub fn new() -> (s: Self)
        ensures
            stack_wf(s@),
            s@.link == (LinkModel {
                mac: seq![0u8, 0u8, 0u8, 0u8, 0u8, 0u8],
                incoming: Seq::empty(),
                outgoing: Seq::empty(),
                fail_transmit: false,
                address: seq![0u8, 0u8, 0u8, 0u8],
                ip_id: 1,
            }),
            !s@.available,
            s@.subnet == seq![0u8, 0u8, 0u8, 0u8],
            s@.gateway == seq![0u8, 0u8, 0u8, 0u8],
            s@.dns == seq![0u8, 0u8, 0u8, 0u8],
            s@.next_port == 49152,
            s@.async_udp is None,
            s@.async_tcp is None,
            s@.ipv6 is None,
            s@.control_tick == 0,
            !s@.ipv6_reported,
            s@.handshakes == Seq::new(PASSIVE_TCP_HANDSHAKE_SLOTS as nat, |i: int| None::<HandshakeModel>),
            s@.pending_syns == Seq::new(PASSIVE_TCP_HANDSHAKE_SLOTS as nat, |i: int| None::<SynModel>),
            s@.streams == Seq::new(PASSIVE_TCP_STREAM_SLOTS as nat, |i: int| None::<StreamModel>),
            s@.cursor == 0,
            s@.stats == (StreamStats {
                max_ack_latency: 0,
                max_cwnd: 256,
                max_stream_bytes: 0,
                payload_bytes: 0,
                reordered_segments: 0,
                max_buffered: 0,
            }),
            s@.retransmissions == 0,
            s@.congestion_events == 0,
            s@.min_cwnd == 256,
            s@.service_started is None,
            s@.service_finished == 0,
    {
        let mut passive_streams: Vec<Option<StreamOperation>> = Vec::new();
        passive_streams.push(None);
        passive_streams.push(None);
        passive_streams.push(None);
        passive_streams.push(None);
        let mut passive_tcp: Vec<Option<HandshakeOperation>> = Vec::new();
        passive_tcp.push(None);
        passive_tcp.push(None);
        passive_tcp.push(None);
        passive_tcp.push(None);
        let mut pending_syns: Vec<Option<PassiveTcpSyn>> = Vec::new();
        pending_syns.push(None);
        pending_syns.push(None);
        pending_syns.push(None);
        pending_syns.push(None);
        let s = NetworkStack {
            device: FrameDevice::new([0; 6]),
            available: false,
            address: [0; 4],
            subnet: [0; 4],
            gateway: [0; 4],
            dns: [0; 4],
            next_port: 49152,
            ip_id: 1,
            async_udp: None,
            async_tcp: None,
            ipv6: None,
            control_tick: 0,
            ipv6_reported: false,
            passive_tcp,
            pending_syns,
            passive_streams,
            passive_stream_cursor: 0,
            stream_stats: StreamStats {
                max_ack_latency: 0,
                max_cwnd: 256,
                max_stream_bytes: 0,
                payload_bytes: 0,
                reordered_segments: 0,
                max_buffered: 0,
            },
            tcp_retransmissions: 0,
            tcp_congestion_events: 0,
            tcp_min_cwnd: 256,
            tcp_service_started: None,
            tcp_service_finished: 0,
        };
        assert(s@.streams =~= Seq::new(PASSIVE_TCP_STREAM_SLOTS as nat, |i: int| None::<StreamModel>));
        assert(s@.handshakes =~= Seq::new(PASSIVE_TCP_HANDSHAKE_SLOTS as nat, |i: int| None::<HandshakeModel>));
        assert(s@.pending_syns =~= Seq::new(PASSIVE_TCP_HANDSHAKE_SLOTS as nat, |i: int| None::<SynModel>));
        assert(s@.link.mac =~= seq![0u8, 0u8, 0u8, 0u8, 0u8, 0u8]);
        assert(s@.link.address =~= seq![0u8, 0u8, 0u8, 0u8]);
        assert(s@.subnet =~= seq![0u8, 0u8, 0u8, 0u8]);
        assert(s@.gateway =~= seq![0u8, 0u8, 0u8, 0u8]);
        assert(s@.dns =~= seq![0u8, 0u8, 0u8, 0u8]);
        assert(s@.link.incoming =~= Seq::<Seq<u8>>::empty());
        assert(s@.link.outgoing =~= Seq::<Seq<u8>>::empty());
        s
    }

    /// Sends one IPv4 datagram from `source`; see `spec_send_ipv4`.
    pub fn send_ipv4_from(
        &mut self,
        mac: [u8; 6],
        source: [u8; 4],
        destination: [u8; 4],
        protocol: u8,
        payload: &[u8],
    ) -> (r: bool)
        ensures
            (final(self)@.link, r) == spec_send_ipv4(old(self)@.link, mac@, source@, destination@, protocol, payload@),
            final(self)@ == (StackModel { link: final(self)@.link, ..old(self)@ }),
    {
        reveal(spec_send_ipv4);
        if payload.len() > MAX_FRAME - 34 {
            return false;
        }
        let total = (20 + payload.len()) as u16;
        let mut header: Vec<u8> = Vec::new();
        header.push(0x45);
        header.push(0);
        push_be16(&mut header, total);
        push_be16(&mut header, self.ip_id);
        header.push(0x40);
        header.push(0);
        header.push(64);
        header.push(protocol);
        header.push(0);
        header.push(0);
        push_all(&mut header, source.as_slice());
        push_all(&mut header, destination.as_slice());
        let ghost plain = header@;
        assert(plain =~= ipv4_header(total, self.ip_id, protocol, source@, destination@));
        let sum = checksum(header.as_slice());
        let (hi, lo) = be16_bytes(sum);
        assert(hi == sum / 256 && lo == sum % 256) by (nonlinear_arith)
            requires
                256 * hi + lo == sum,
                hi < 256,
                lo < 256,
        ;
        header.set(10, hi);
        header.set(11, lo);
        let mut frame: Vec<u8> = Vec::new();
        push_all(&mut frame, mac.as_slice());
        let own = self.device.mac();
        push_all(&mut frame, own.as_slice());
        frame.push(8);
        frame.push(0);
        push_all(&mut frame, header.as_slice());
        push_all(&mut frame, payload);
        assert(frame@ =~= ipv4_frame(mac@, self.device.mac@, self.ip_id, source@, destination@, protocol, payload@));
        self.ip_id = if self.ip_id == u16::MAX { 0 } else { self.ip_id + 1 };
        let r = self.device.transmit(frame.as_slice());
        r
    }

    /// Sends one TCP segment; see `spec_send_tcp`.
    pub fn send_tcp_with_window(
        &mut self,
        mac: [u8; 6],
        destination: [u8; 4],
        source_port: u16,
        destination_port: u16,
        sequence: u32,
        acknowledgment: u32,
        flags: u8,
        payload: &[u8],
        receive_window: u16,
    ) -> (r: Option<()>)
        ensures
            final(self)@ == (StackModel { link: final(self)@.link, ..old(self)@ }),
            (final(self)@.link, r is Some) == spec_send_tcp(
                old(self)@.link,
                mac@,
                destination@,
                source_port,
                destination_port,
                sequence,
                acknowledgment,
                flags,
                payload@,
                receive_window,
            ),
    {
        reveal(spec_send_tcp);
        if payload.len() > TCP_SEGMENT_CAPACITY - 20 {
            return None;
        }
        let mut segment: Vec<u8> = Vec::new();
        push_be16(&mut segment, source_port);
        push_be16(&mut segment, destination_port);
        push_be32(&mut segment, sequence);
        push_be32(&mut segment, acknowledgment);
        segment.push(0x50);
        segment.push(flags);
        push_be16(&mut segment, receive_window);
        segment.push(0);
        segment.push(0);
        segment.push(0);
        segment.push(0);
        push_all(&mut segment, payload);
        let ghost plain = segment@;
        assert(plain =~= tcp_segment(source_port, destination_port, sequence, acknowledgment, flags, receive_window, payload@));
        let sum = transport_checksum(self.address, destination, 6, segment.as_slice());
        let (hi, lo) = be16_bytes(sum);
        assert(hi == sum / 256 && lo == sum % 256) by (nonlinear_arith)
            requires
                256 * hi + lo == sum,
                hi < 256,
                lo < 256,
        ;
        segment.set(16, hi);
        segment.set(17, lo);
        assert(segment@ =~= with_tcp_checksum(self.address@, destination@, plain));
        let address = self.address;
        if self.send_ipv4_from(mac, address, destination, 6, segment.as_slice()) {
            Some(())
        } else {
            None
        }
    }

    /// Sends one TCP segment that offers the whole receive capacity.
    pub fn send_tcp(
        &mut self,
        mac: [u8; 6],
        destination: [u8; 4],
        source_port: u16,
        destination_port: u16,
        sequence: u32,
        acknowledgment: u32,
        flags: u8,
        payload: &[u8],
    ) -> (r: Option<()>)
        ensures
            final(self)@ == (StackModel { link: final(self)@.link, ..old(self)@ }),
            (final(self)@.link, r is Some) == spec_send_tcp(
                old(self)@.link,
                mac@,
                destination@,
                source_port,
                destination_port,
                sequence,
                acknowledgment,
                flags,
                payload@,
                PASSIVE_TCP_RECEIVE_CAPACITY as u16,
            ),
    {
        self.send_tcp_with_window(
            mac,
            destination,
            source_port,
            destination_port,
            sequence,
            acknowledgment,
            flags,
            payload,
            PASSIVE_TCP_RECEIVE_CAPACITY as u16,
        )
    }
}

/// The first slot, from `from` on, that holds the stream of `peer`.
pub open spec fn find_peer(streams: Seq<Option<StreamModel>>, peer: TcpServerPeer, from: nat) -> Option<int>
    decreases streams.len() - from,
{
    if from >= streams.len() {
        None
    } else if streams[from as int] matches Some(op) && op.peer == peer {
        Some(from as int)
    } else {
        find_peer(streams, peer, from + 1)
    }
}

/// Whether a stream belongs to the remote address, remote port and local
/// port of a segment.
pub open spec fn tuple_matches(op: StreamModel, target: Seq<u8>, remote_port: u16, local_port: u16) -> bool {
    spec_be32_bytes(op.peer.target) == target && op.peer.remote_port == remote_port && op.peer.local_port == local_port
}

/// The first slot, from `from` on, whose stream belongs to the tuple.
pub open spec fn find_tuple(
    streams: Seq<Option<StreamModel>>,
    target: Seq<u8>,
    remote_port: u16,
    local_port: u16,
    from: nat,
) -> Option<int>
    decreases streams.len() - from,
{
    if from >= streams.len() {
        None
    } else if streams[from as int] matches Some(op) && tuple_matches(op, target, remote_port, local_port) {
        Some(from as int)
    } else {
        find_tuple(streams, target, remote_port, local_port, from + 1)
    }
}

/// The first empty slot from `from` on.
pub open spec fn find_free(streams: Seq<Option<StreamModel>>, from: nat) -> Option<int>
    decreases streams.len() - from,
{
    if from >= streams.len() {
        None
    } else if streams[from as int] is None {
        Some(from as int)
    } else {
        find_free(streams, from + 1)
    }
}

/// The peer of a slot's stream.
pub open spec fn peer_of(slot: Option<StreamModel>) -> Option<TcpServerPeer> {
    match slot {
        Some(op) => Some(op.peer),
        None => None,
    }
}

pub open spec fn opt_index(r: Option<usize>) -> Option<int> {
    match r {
        Some(i) => Some(i as int),
        None => None,
    }
}

proof fn lemma_find_peer(streams: Seq<Option<StreamModel>>, peer: TcpServerPeer, from: nat)
    ensures
        find_peer(streams, peer, from) matches Some(i) ==> from <= i < streams.len() && streams[i] is Some
            && streams[i]->Some_0.peer == peer,
    decreases streams.len() - from,
{
    if from < streams.len() {
        lemma_find_peer(streams, peer, from + 1);
    }
}

proof fn lemma_find_tuple(streams: Seq<Option<StreamModel>>, target: Seq<u8>, remote_port: u16, local_port: u16, from: nat)
    ensures
        find_tuple(streams, target, remote_port, local_port, from) matches Some(i) ==> from <= i < streams.len()
            && streams[i] is Some && tuple_matches(streams[i]->Some_0, target, remote_port, local_port),
    decreases streams.len() - from,
{
    if from < streams.len() {
        lemma_find_tuple(streams, target, remote_port, local_port, from + 1);
    }
}

proof fn lemma_find_free(streams: Seq<Option<StreamModel>>, from: nat)
    ensures
        find_free(streams, from) matches Some(i) ==> from <= i < streams.len() && streams[i] is None,
    decreases streams.len() - from,
{
    if from < streams.len() {
        lemma_find_free(streams, from + 1);
    }
}

/// A segment of a stream to its peer, from the stream's own port, that
/// acknowledges everything received so far.
pub open spec fn stream_send(m: LinkModel, op: StreamModel, sequence: u32, flags: u8, payload: Seq<u8>, window: u16) -> (LinkModel, bool) {
    spec_send_tcp(
        m,
        op.peer.source_mac@,
        spec_be32_bytes(op.peer.target),
        op.peer.local_port,
        op.peer.remote_port,
        sequence,
        op.remote_sequence,
        flags,
        payload,
        window,
    )
}

/// The bare acknowledgment of a stream, offering its receive window.
pub open spec fn stream_ack(m: LinkModel, op: StreamModel) -> (LinkModel, bool) {
    stream_send(m, op, op.local_sequence, 0x10, Seq::empty(), spec_receive_window(op))
}

/// The reset that ends a stream.
pub open spec fn stream_reset(m: LinkModel, op: StreamModel) -> (LinkModel, bool) {
    stream_send(m, op, op.local_sequence, 0x14, Seq::empty(), PASSIVE_TCP_RECEIVE_CAPACITY as u16)
}

pub open spec fn max_usize(a: usize, b: int) -> usize {
    if a < b { b as usize } else { a }
}

/// Attaches an established peer to a free stream slot. Refused while the
/// stack is down or its own UDP or TCP request is under way, for more
/// early bytes than a buffer holds, for a tuple that already has a stream,
/// or with every slot taken.
pub open spec fn spec_start_stream(m: StackModel, peer: TcpServerPeer, early: EarlyStreamData, tick: u64) -> (StackModel, bool) {
    if !m.available || m.async_udp is Some || m.async_tcp is Some || early.len > PASSIVE_TCP_STREAM_BUFFER_CAPACITY || find_tuple(
        m.streams,
        spec_be32_bytes(peer.target),
        peer.remote_port,
        peer.local_port,
        0,
    ) is Some {
        (m, false)
    } else {
        match find_free(m.streams, 0) {
            None => (m, false),
            Some(i) => (
                StackModel {
                    streams: m.streams.update(
                        i,
                        Some(spec_open(peer, early.bytes@.subrange(0, early.len as int), early.fin, early.peer_window, tick)),
                    ),
                    service_started: if m.service_started is Some { m.service_started } else { Some(tick) },
                    stats: StreamStats {
                        payload_bytes: sat_add(m.stats.payload_bytes, early.len as int),
                        max_buffered: max_usize(m.stats.max_buffered, early.len as int),
                        ..m.stats
                    },
                    ..m
                },
                true,
            ),
        }
    }
}

/// How many bytes the next flight carries: the queued bytes, cut to the
/// peer's window and the congestion window.
pub open spec fn flight_len(op: StreamModel) -> int {
    let a = op.send.len() as int;
    let b = if a < op.peer_window { a } else { op.peer_window as int };
    if b < op.congestion_window { b } else { op.congestion_window as int }
}

/// Sends the first flight of queued bytes, when there is one and none is
/// outstanding; the stream records it as sent even when the device refused
/// it.
pub open spec fn spec_transmit_flight(m: LinkModel, op: StreamModel, tick: u64) -> (LinkModel, StreamModel, bool) {
    let len = flight_len(op);
    if len == 0 || op.send_flight != 0 {
        (m, op, false)
    } else {
        let op1 = StreamModel {
            send_flight: len as usize,
            attempts: 1,
            sent_at: tick,
            deadline: sat_add(tick, op.rto_ticks as int),
            ..op
        };
        let (m1, sent) = stream_send(m, op1, op1.local_sequence, 0x18, op.send.subrange(0, len), spec_receive_window(op1));
        (m1, op1, sent)
    }
}

/// Queues bytes on the stream of `peer` and sends what the windows allow.
/// Refused without a stream, for no bytes or more than a buffer or the
/// congestion window holds, while earlier bytes are queued or their
/// completion unreported, and after the stream's FIN. A flight the device
/// refused fails the stream.
pub open spec fn spec_start_send(m: StackModel, peer: TcpServerPeer, bytes: Seq<u8>, tick: u64) -> (StackModel, bool) {
    match find_peer(m.streams, peer, 0) {
        None => (m, false),
        Some(i) => {
            let op = m.streams[i]->Some_0;
            if bytes.len() == 0 || bytes.len() > PASSIVE_TCP_STREAM_BUFFER_CAPACITY || bytes.len() > op.congestion_window
                || op.send.len() != 0 || op.send_completed || op.fin_sent {
                (m, false)
            } else {
                let op1 = StreamModel {
                    send: bytes,
                    deadline: sat_add(tick, PASSIVE_TCP_STREAM_IDLE_TICKS as int),
                    persist_deadline: sat_add(tick, op.rto_ticks as int),
                    persist_attempts: 0,
                    ..op
                };
                let (link, op2, sent) = if op1.peer_window == 0 {
                    (m.link, op1, true)
                } else {
                    spec_transmit_flight(m.link, op1, tick)
                };
                let op3 = if sent { op2 } else { StreamModel { failed: true, ..op2 } };
                (StackModel { link, streams: m.streams.update(i, Some(op3)), ..m }, sent)
            }
        },
    }
}

/// The stream after the user took its received bytes: acknowledged held
/// bytes, and a FIN that came with them, move into the receive buffer.
pub open spec fn consumed(op: StreamModel) -> StreamModel {
    match op.deferred {
        Some(d) => if d.acknowledged {
            StreamModel {
                receive: d.bytes,
                deferred: None,
                peer_fin: op.peer_fin || d.fin,
                peer_fin_pending: op.peer_fin_pending || d.fin,
                ..op
            }
        } else {
            StreamModel { receive: Seq::empty(), ..op }
        },
        None => StreamModel { receive: Seq::empty(), ..op },
    }
}

/// Hands the received bytes of `peer`'s stream to the user and tells the
/// peer of the reopened window; refused when nothing was received.
pub open spec fn spec_consume_receive(m: StackModel, peer: TcpServerPeer) -> (StackModel, bool) {
    match find_peer(m.streams, peer, 0) {
        None => (m, false),
        Some(i) => {
            let op = m.streams[i]->Some_0;
            if op.receive.len() == 0 {
                (m, false)
            } else {
                let op1 = consumed(op);
                (StackModel { link: stream_ack(m.link, op1).0, streams: m.streams.update(i, Some(op1)), ..m }, true)
            }
        },
    }
}

/// Clears the reported completion of `peer`'s sent bytes.
pub open spec fn spec_consume_send(m: StackModel, peer: TcpServerPeer) -> (StackModel, bool) {
    match find_peer(m.streams, peer, 0) {
        None => (m, false),
        Some(i) => {
            let op = m.streams[i]->Some_0;
            if !op.send_completed {
                (m, false)
            } else {
                (StackModel { streams: m.streams.update(i, Some(StreamModel { send_completed: false, ..op })), ..m }, true)
            }
        },
    }
}

/// Clears the reported close of `peer`'s side of the stream.
pub open spec fn spec_consume_peer_close(m: StackModel, peer: TcpServerPeer) -> (StackModel, bool) {
    match find_peer(m.streams, peer, 0) {
        None => (m, false),
        Some(i) => {
            let op = m.streams[i]->Some_0;
            if !op.peer_fin_pending {
                (m, false)
            } else {
                (StackModel { streams: m.streams.update(i, Some(StreamModel { peer_fin_pending: false, ..op })), ..m }, true)
            }
        },
    }
}

/// Sends the stream's FIN once every queued byte was sent and reported;
/// the answer is whether the device took it.
pub open spec fn spec_start_close(m: StackModel, peer: TcpServerPeer, tick: u64) -> (StackModel, bool) {
    match find_peer(m.streams, peer, 0) {
        None => (m, false),
        Some(i) => {
            let op = m.streams[i]->Some_0;
            if op.send.len() != 0 || op.send_completed || op.fin_sent {
                (m, false)
            } else {
                let op1 = StreamModel { fin_sent: true, attempts: 1, deadline: sat_add(tick, PASSIVE_TCP_RETRY_TICKS as int), ..op };
                let (link, sent) = stream_send(m.link, op1, op1.local_sequence, 0x11, Seq::empty(), PASSIVE_TCP_RECEIVE_CAPACITY as u16);
                (StackModel { link, streams: m.streams.update(i, Some(op1)), ..m }, sent)
            }
        },
    }
}

/// Frees the slot of `peer`'s stream.
pub open spec fn spec_finish(m: StackModel, peer: TcpServerPeer) -> (StackModel, bool) {
    match find_peer(m.streams, peer, 0) {
        None => (m, false),
        Some(i) => (StackModel { streams: m.streams.update(i, None), ..m }, true),
    }
}

/// Resets `peer`'s stream and frees its slot.
pub open spec fn spec_cancel(m: StackModel, peer: TcpServerPeer) -> StackModel {
    match find_peer(m.streams, peer, 0) {
        None => m,
        Some(i) => StackModel {
            link: stream_reset(m.link, m.streams[i]->Some_0).0,
            streams: m.streams.update(i, None),
            ..m
        },
    }
}

impl NetworkStack {
    /// The slot of `peer`'s stream.
    pub fn stream_slot(&self, peer: TcpServerPeer) -> (r: Option<usize>)
        requires
            stack_wf(self@),
        ensures
            opt_index(r) == find_peer(self@.streams, peer, 0),
    {
        let mut i: usize = 0;
        while i < self.passive_streams.len()
            invariant
                i <= self.passive_streams@.len(),
                self@.streams.len() == self.passive_streams@.len(),
                find_peer(self@.streams, peer, 0) == find_peer(self@.streams, peer, i as nat),
            decreases self.passive_streams@.len() - i,
        {
            if let Some(op) = &self.passive_streams[i] {
                assert(self@.streams[i as int] == Some(op@));
                if peer_eq(&op.peer, &peer) {
                    return Some(i);
                }
            }
            i += 1;
        }
        None
    }

    /// The slot of the stream that a segment's tuple belongs to.
    pub fn stream_slot_for_tuple(&self, target: [u8; 4], remote_port: u16, local_port: u16) -> (r: Option<usize>)
        requires
            stack_wf(self@),
        ensures
            opt_index(r) == find_tuple(self@.streams, target@, remote_port, local_port, 0),
    {
        let mut i: usize = 0;
        while i < self.passive_streams.len()
            invariant
                i <= self.passive_streams@.len(),
                self@.streams.len() == self.passive_streams@.len(),
                find_tuple(self@.streams, target@, remote_port, local_port, 0) == find_tuple(
                    self@.streams,
                    target@,
                    remote_port,
                    local_port,
                    i as nat,
                ),
            decreases self.passive_streams@.len() - i,
        {
            if let Some(op) = &self.passive_streams[i] {
                assert(self@.streams[i as int] == Some(op@));
                let t = be32_bytes(op.peer.target);
                let same = t[0] == target[0] && t[1] == target[1] && t[2] == target[2] && t[3] == target[3];
                assert(same == (t@ == target@)) by {
                    if same {
                        assert(t@ =~= target@);
                    }
                }
                if same && op.peer.remote_port == remote_port && op.peer.local_port == local_port {
                    return Some(i);
                }
            }
            i += 1;
        }
        None
    }

    fn free_slot(&self) -> (r: Option<usize>)
        requires
            stack_wf(self@),
        ensures
            opt_index(r) == find_free(self@.streams, 0),
    {
        let mut i: usize = 0;
        while i < self.passive_streams.len()
            invariant
                i <= self.passive_streams@.len(),
                self@.streams.len() == self.passive_streams@.len(),
                find_free(self@.streams, 0) == find_free(self@.streams, i as nat),
            decreases self.passive_streams@.len() - i,
        {
            if self.passive_streams[i].is_none() {
                return Some(i);
            }
            i += 1;
        }
        None
    }

    /// Takes the stream out of slot `i`, leaving the slot empty.
    fn take_stream(&mut self, i: usize) -> (op: StreamOperation)
        requires
            stack_wf(old(self)@),
            i < PASSIVE_TCP_STREAM_SLOTS,
            old(self)@.streams[i as int] is Some,
        ensures
            Some(op@) == old(self)@.streams[i as int],
            stream_wf(op@),
            final(self)@ == (StackModel { streams: old(self)@.streams.update(i as int, None), ..old(self)@ }),
    {
        let slot = self.passive_streams.remove(i);
        self.passive_streams.insert(i, None);
        assert(self@.streams =~= old(self)@.streams.update(i as int, None));
        slot.unwrap()
    }

    /// Puts a stream into slot `i`.
    fn put_stream(&mut self, i: usize, op: StreamOperation)
        requires
            i < old(self)@.streams.len(),
        ensures
            final(self)@ == (StackModel { streams: old(self)@.streams.update(i as int, Some(op@)), ..old(self)@ }),
    {
        let ghost m = op@;
        assert(self@.streams.len() == self.passive_streams@.len());
        self.passive_streams.set(i, Some(op));
        assert(self@.streams =~= old(self)@.streams.update(i as int, Some(m)));
    }

    /// Sends one segment of `op`'s stream; see `stream_send`.
    fn send_for(&mut self, op: &StreamOperation, sequence: u32, flags: u8, payload: &[u8], window: u16) -> (r: bool)
        ensures
            final(self)@ == (StackModel { link: final(self)@.link, ..old(self)@ }),
            (final(self)@.link, r) == stream_send(old(self)@.link, op@, sequence, flags, payload@, window),
    {
        let target = be32_bytes(op.peer.target);
        self.send_tcp_with_window(
            op.peer.source_mac,
            target,
            op.peer.local_port,
            op.peer.remote_port,
            sequence,
            op.remote_sequence,
            flags,
            payload,
            window,
        ).is_some()
    }

    /// Sends `op`'s bare acknowledgment; see `stream_ack`.
    fn send_stream_ack(&mut self, op: &StreamOperation) -> (r: bool)
        requires
            stream_wf(op@),
        ensures
            final(self)@ == (StackModel { link: final(self)@.link, ..old(self)@ }),
            (final(self)@.link, r) == stream_ack(old(self)@.link, op@),
    {
        let window = receive_window(op);
        self.send_for(op, op.local_sequence, 0x10, no_payload(), window)
    }

    /// Sends the reset that ends `op`'s stream; see `stream_reset`.
    fn send_stream_reset(&mut self, op: &StreamOperation) -> (r: bool)
        ensures
            final(self)@ == (StackModel { link: final(self)@.link, ..old(self)@ }),
            (final(self)@.link, r) == stream_reset(old(self)@.link, op@),
    {
        self.send_for(op, op.local_sequence, 0x14, no_payload(), PASSIVE_TCP_RECEIVE_CAPACITY as u16)
    }
}

impl NetworkStack {
    /// Attaches an established peer to a free stream slot; see
    /// `spec_start_stream`.
    pub fn start_tcp_passive_stream(&mut self, peer: TcpServerPeer, early: EarlyStreamData, tick: u64) -> (r: bool)
        requires
            stack_wf(old(self)@),
        ensures
            stack_wf(final(self)@),
            (final(self)@, r) == spec_start_stream(old(self)@, peer, early, tick),
    {
        if !self.available || self.async_udp.is_some() || self.async_tcp.is_some()
            || early.len > PASSIVE_TCP_STREAM_BUFFER_CAPACITY {
            return false;
        }
        let target = be32_bytes(peer.target);
        if self.stream_slot_for_tuple(target, peer.remote_port, peer.local_port).is_some() {
            return false;
        }
        let index = match self.free_slot() {
            Some(i) => i,
            None => return false,
        };
        proof {
            lemma_find_free(self@.streams, 0);
        }
        let op = StreamOperation::open(peer, &early, tick);
        self.put_stream(index, op);
        if self.tcp_service_started.is_none() {
            self.tcp_service_started = Some(tick);
        }
        self.stream_stats.payload_bytes = self.stream_stats.payload_bytes.saturating_add(early.len as u64);
        if self.stream_stats.max_buffered < early.len {
            self.stream_stats.max_buffered = early.len;
        }
        true
    }

    /// Sends the next flight of `op`'s queued bytes; see
    /// `spec_transmit_flight`.
    fn transmit_stream_flight(&mut self, op: &mut StreamOperation, tick: u64) -> (r: bool)
        requires
            stream_wf(old(op)@),
        ensures
            stream_wf(final(op)@),
            final(self)@ == (StackModel { link: final(self)@.link, ..old(self)@ }),
            (final(self)@.link, final(op)@, r) == spec_transmit_flight(old(self)@.link, old(op)@, tick),
    {
        let mut len = op.send.len();
        if (op.peer_window as usize) < len {
            len = op.peer_window as usize;
        }
        if op.congestion_window < len {
            len = op.congestion_window;
        }
        if len == 0 || op.send_flight != 0 {
            return false;
        }
        op.send_flight = len;
        op.attempts = 1;
        op.sent_at = tick;
        op.deadline = tick.saturating_add(op.rto_ticks);
        let flight = slice_prefix(&op.send, len);
        let window = receive_window(op);
        let sequence = op.local_sequence;
        self.send_for(op, sequence, 0x18, flight.as_slice(), window)
    }

    /// Queues bytes on `peer`'s stream; see `spec_start_send`.
    #[verifier::rlimit(60)]
    #[verifier::spinoff_prover]
    pub fn start_tcp_passive_stream_send(&mut self, peer: TcpServerPeer, bytes: &[u8], tick: u64) -> (r: bool)
        requires
            stack_wf(old(self)@),
        ensures
            stack_wf(final(self)@),
            (final(self)@, r) == spec_start_send(old(self)@, peer, bytes@, tick),
    {
        let index = match self.stream_slot(peer) {
            Some(i) => i,
            None => return false,
        };
        proof {
            lemma_find_peer(self@.streams, peer, 0);
        }
        let ghost m0 = self@;
        let mut op = self.take_stream(index);
        if bytes.len() == 0 || bytes.len() > PASSIVE_TCP_STREAM_BUFFER_CAPACITY || bytes.len() > op.congestion_window
            || op.send.len() != 0 || op.send_completed || op.fin_sent {
            self.put_stream(index, op);
            assert(self@.streams =~= m0.streams);
            return false;
        }
        op.send = bytes_of(bytes);
        op.deadline = tick.saturating_add(PASSIVE_TCP_STREAM_IDLE_TICKS);
        op.persist_deadline = tick.saturating_add(op.rto_ticks);
        op.persist_attempts = 0;
        let sent = op.peer_window == 0 || self.transmit_stream_flight(&mut op, tick);
        if !sent {
            op.failed = true;
        }
        self.put_stream(index, op);
        proof {
            assert(self@.streams =~= m0.streams.update(index as int, Some(op@)));
        }
        sent
    }

    /// Hands `peer`'s received bytes to the user; see
    /// `spec_consume_receive`.
    #[verifier::rlimit(100)]
    #[verifier::spinoff_prover]
    pub fn consume_tcp_passive_stream_receive(&mut self, peer: TcpServerPeer) -> (r: bool)
        requires
            stack_wf(old(self)@),
        ensures
            stack_wf(final(self)@),
            (final(self)@, r) == spec_consume_receive(old(self)@, peer),
    {
        let index = match self.stream_slot(peer) {
            Some(i) => i,
            None => return false,
        };
        proof {
            lemma_find_peer(self@.streams, peer, 0);
        }
        let ghost m0 = self@;
        let mut op = self.take_stream(index);
        if op.receive.len() == 0 {
            self.put_stream(index, op);
            assert(self@.streams =~= m0.streams);
            return false;
        }
        let deferred = op.deferred.take();
        match deferred {
            Some(d) => {
                if d.acknowledged {
                    op.receive = d.bytes;
                    if d.fin {
                        op.peer_fin = true;
                        op.peer_fin_pending = true;
                    }
                } else {
                    op.receive = Vec::new();
                    op.deferred = Some(d);
                }
            },
            None => {
                op.receive = Vec::new();
            },
        }
        let ghost opm = op@;
        assert(opm == consumed(m0.streams[index as int]->Some_0));
        self.send_stream_ack(&op);
        self.put_stream(index, op);
        assert(self@.streams =~= m0.streams.update(index as int, Some(opm)));
        true
    }

    /// Clears the reported completion of `peer`'s sent bytes.
    pub fn consume_tcp_passive_stream_send(&mut self, peer: TcpServerPeer) -> (r: bool)
        requires
            stack_wf(old(self)@),
        ensures
            stack_wf(final(self)@),
            (final(self)@, r) == spec_consume_send(old(self)@, peer),
    {
        let index = match self.stream_slot(peer) {
            Some(i) => i,
            None => return false,
        };
        proof {
            lemma_find_peer(self@.streams, peer, 0);
        }
        let ghost m0 = self@;
        let mut op = self.take_stream(index);
        if !op.send_completed {
            self.put_stream(index, op);
            assert(self@.streams =~= m0.streams);
            return false;
        }
        op.send_completed = false;
        let ghost opm = op@;
        self.put_stream(index, op);
        assert(self@.streams =~= m0.streams.update(index as int, Some(opm)));
        true
    }

    /// Clears the reported close of `peer`'s side of the stream.
    pub fn consume_tcp_passive_peer_close(&mut self, peer: TcpServerPeer) -> (r: bool)
        requires
            stack_wf(old(self)@),
        ensures
            stack_wf(final(self)@),
            (final(self)@, r) == spec_consume_peer_close(old(self)@, peer),
    {
        let index = match self.stream_slot(peer) {
            Some(i) => i,
            None => return false,
        };
        proof {
            lemma_find_peer(self@.streams, peer, 0);
        }
        let ghost m0 = self@;
        let mut op = self.take_stream(index);
        if !op.peer_fin_pending {
            self.put_stream(index, op);
            assert(self@.streams =~= m0.streams);
            return false;
        }
        op.peer_fin_pending = false;
        let ghost opm = op@;
        self.put_stream(index, op);
        assert(self@.streams =~= m0.streams.update(index as int, Some(opm)));
        true
    }

    /// Sends the stream's FIN; see `spec_start_close`.
    pub fn start_tcp_passive_stream_close(&mut self, peer: TcpServerPeer, tick: u64) -> (r: bool)
        requires
            stack_wf(old(self)@),
        ensures
            stack_wf(final(self)@),
            (final(self)@, r) == spec_start_close(old(self)@, peer, tick),
    {
        let index = match self.stream_slot(peer) {
            Some(i) => i,
            None => return false,
        };
        proof {
            lemma_find_peer(self@.streams, peer, 0);
        }
        let ghost m0 = self@;
        let mut op = self.take_stream(index);
        if op.send.len() != 0 || op.send_completed || op.fin_sent {
            self.put_stream(index, op);
            assert(self@.streams =~= m0.streams);
            return false;
        }
        op.fin_sent = true;
        op.attempts = 1;
        op.deadline = tick.saturating_add(PASSIVE_TCP_RETRY_TICKS);
        let sequence = op.local_sequence;
        let sent = self.send_for(&op, sequence, 0x11, no_payload(), PASSIVE_TCP_RECEIVE_CAPACITY as u16);
        let ghost opm = op@;
        self.put_stream(index, op);
        assert(self@.streams =~= m0.streams.update(index as int, Some(opm)));
        sent
    }

    /// Frees the slot of `peer`'s stream.
    pub fn finish_tcp_passive_stream(&mut self, peer: TcpServerPeer) -> (r: bool)
        requires
            stack_wf(old(self)@),
        ensures
            stack_wf(final(self)@),
            (final(self)@, r) == spec_finish(old(self)@, peer),
    {
        let index = match self.stream_slot(peer) {
            Some(i) => i,
            None => return false,
        };
        proof {
            lemma_find_peer(self@.streams, peer, 0);
        }
        let _op = self.take_stream(index);
        true
    }

    /// Resets `peer`'s stream and frees its slot.
    pub fn cancel_tcp_passive_stream(&mut self, peer: TcpServerPeer)
        requires
            stack_wf(old(self)@),
        ensures
            stack_wf(final(self)@),
            final(self)@ == spec_cancel(old(self)@, peer),
    {
        let index = match self.stream_slot(peer) {
            Some(i) => i,
            None => return,
        };
        proof {
            lemma_find_peer(self@.streams, peer, 0);
        }
        let op = self.take_stream(index);
        self.send_stream_reset(&op);
    }

    /// The peer of each stream slot.
    pub fn tcp_passive_stream_peers(&self) -> (r: [Option<TcpServerPeer>; 4])
        requires
            stack_wf(self@),
        ensures
            forall|i: int| 0 <= i < 4 ==> #[trigger] r@[i] == peer_of(self@.streams[i]),
    {
        let mut r: [Option<TcpServerPeer>; 4] = [None; 4];
        let mut i: usize = 0;
        while i < 4
            invariant
                i <= 4,
                self@.streams.len() == 4,
                self.passive_streams@.len() == 4,
                forall|j: int| 0 <= j < i ==> #[trigger] r@[j] == peer_of(self@.streams[j]),
            decreases 4 - i,
        {
            if let Some(op) = &self.passive_streams[i] {
                assert(self@.streams[i as int] == Some(op@));
                r[i] = Some(op.peer);
            } else {
                assert(self@.streams[i as int] is None);
                r[i] = None;
            }
            i += 1;
        }
        r
    }
}

pub(crate) fn slice_prefix(v: &Vec<u8>, len: usize) -> (r: Vec<u8>)
    requires
        len <= v@.len(),
    ensures
        r@ == v@.subrange(0, len as int),
{
    let mut r: Vec<u8> = Vec::new();
    let mut i: usize = 0;
    while i < len
        invariant
            len <= v@.len(),
            i <= len,
            r@ == v@.subrange(0, i as int),
        decreases len - i,
    {
        r.push(v[i]);
        i += 1;
        assert(r@ =~= v@.subrange(0, i as int));
    }
    r
}

/// How many times a stream sends the same bytes or FIN before it fails.
pub const RETRIES: usize = 3;

/// What a stream reports to the scheduler.
pub ghost enum StreamEvent {
    Received(TcpServerPeer, Seq<u8>),
    SendComplete(TcpServerPeer),
    PeerClosed(TcpServerPeer),
    Closed(TcpServerPeer),
    Reset(TcpServerPeer),
    Failed(TcpServerPeer),
}

/// The stack with the scan to resume after slot `i`.
pub open spec fn advanced(m: StackModel, i: int) -> StackModel {
    StackModel { cursor: ((i + 1) % PASSIVE_TCP_STREAM_SLOTS as int) as usize, ..m }
}

/// The factor by which a zero-window probe interval grows.
pub open spec fn probe_factor(attempts: usize) -> u64 {
    if attempts <= 1 { 2 } else if attempts == 2 { 4 } else { 8 }
}

pub open spec fn sat_mul_capped(a: u64, f: u64, cap: u64) -> u64 {
    if a * f >= cap { cap } else { (a * f) as u64 }
}

/// One probe of a zero window: a byte at the sequence before the next one,
/// which the peer has already acknowledged, so it can move neither side's
/// sequence. The probe interval doubles up to the idle lifetime.
pub open spec fn persist_probe(l: LinkModel, op: StreamModel, tick: u64) -> (LinkModel, StreamModel) {
    let (l1, sent) = stream_send(l, op, wrap_add(op.local_sequence, -1), 0x10, seq![0u8], spec_receive_window(op));
    let attempts: usize = if op.persist_attempts + 1 < RETRIES { (op.persist_attempts + 1) as usize } else { RETRIES };
    (
        l1,
        StreamModel {
            failed: op.failed || !sent,
            persist_attempts: attempts,
            persist_deadline: sat_add(
                tick,
                sat_mul_capped(op.rto_ticks, probe_factor(attempts), PASSIVE_TCP_STREAM_IDLE_TICKS) as int,
            ),
            ..op
        },
    )
}

/// Queued bytes go out as soon as the peer's window opens; while it stays
/// shut, the window is probed when the probe is due.
pub open spec fn send_step(l: LinkModel, op: StreamModel, tick: u64) -> (LinkModel, StreamModel) {
    if op.send.len() != 0 && op.send_flight == 0 {
        if op.peer_window != 0 {
            let (l1, op1, sent) = spec_transmit_flight(l, op, tick);
            (l1, if sent { op1 } else { StreamModel { failed: true, ..op1 } })
        } else if tick >= op.persist_deadline {
            persist_probe(l, op, tick)
        } else {
            (l, op)
        }
    } else {
        (l, op)
    }
}

pub open spec fn halved_threshold(cwnd: usize) -> usize {
    let h = cwnd / 2;
    if h < PASSIVE_TCP_MSS { PASSIVE_TCP_MSS } else if h > PASSIVE_TCP_MAX_CWND { PASSIVE_TCP_MAX_CWND } else { h }
}

/// When a stream's retransmission timer expires with bytes or a FIN
/// outstanding, they are sent again with the timer doubled and the
/// congestion window cut to one segment; after `RETRIES` sends, or when the
/// device refuses one, the stream fails. The flag says it failed.
pub open spec fn retry_step(m: StackModel, op: StreamModel, tick: u64) -> (StackModel, StreamModel, bool) {
    if tick >= op.deadline && (op.send_flight != 0 || (op.fin_sent && !op.fin_acked)) {
        let flags: u8 = if op.send_flight != 0 { 0x18 } else { 0x11 };
        let payload = if op.send_flight != 0 { op.send.subrange(0, op.send_flight as int) } else { Seq::empty() };
        if op.attempts >= RETRIES {
            (m, op, true)
        } else {
            let (l, sent) = stream_send(m.link, op, op.local_sequence, flags, payload, spec_receive_window(op));
            if !sent {
                (StackModel { link: l, ..m }, op, true)
            } else {
                let rto: u64 = if op.rto_ticks >= 2 * PASSIVE_TCP_RETRY_TICKS {
                    (4 * PASSIVE_TCP_RETRY_TICKS) as u64
                } else {
                    (2 * op.rto_ticks) as u64
                };
                let op1 = StreamModel {
                    slow_start_threshold: halved_threshold(op.congestion_window),
                    congestion_window: PASSIVE_TCP_MSS,
                    attempts: (op.attempts + 1) as usize,
                    sent_at: tick,
                    rto_ticks: rto,
                    deadline: sat_add(tick, rto as int),
                    ..op
                };
                (
                    StackModel {
                        link: l,
                        retransmissions: sat_add(m.retransmissions, 1),
                        congestion_events: sat_add(m.congestion_events, 1),
                        min_cwnd: if m.min_cwnd < PASSIVE_TCP_MSS { m.min_cwnd } else { PASSIVE_TCP_MSS },
                        ..m
                    },
                    op1,
                    false,
                )
            }
        }
    } else {
        (m, op, false)
    }
}

/// What slot `i` reports once its timers ran, in this order: received
/// bytes, completion of sent bytes, the close of both sides, the close of
/// the peer's side.
pub open spec fn report(m: StackModel, i: int, op: StreamModel, tick: u64) -> (StackModel, Option<StreamEvent>) {
    if op.receive.len() != 0 {
        (advanced(m, i), Some(StreamEvent::Received(op.peer, op.receive)))
    } else if op.send_completed {
        (advanced(m, i), Some(StreamEvent::SendComplete(op.peer)))
    } else if op.peer_fin && op.fin_sent && op.fin_acked {
        (StackModel { service_finished: tick, ..advanced(m, i) }, Some(StreamEvent::Closed(op.peer)))
    } else if op.peer_fin_pending {
        (advanced(m, i), Some(StreamEvent::PeerClosed(op.peer)))
    } else {
        (m, None)
    }
}

/// One tick of the stream in slot `i`: a reset or failed stream is reported
/// and its slot freed; an idle one past its lifetime is reset and freed;
/// otherwise its send and retransmission timers run and it reports what it
/// has.
#[verifier::opaque]
pub open spec fn spec_poll_slot(m: StackModel, i: int, tick: u64) -> (StackModel, Option<StreamEvent>) {
    let op = m.streams[i]->Some_0;
    let empty = StackModel { streams: m.streams.update(i, None), ..m };
    if op.reset {
        (advanced(empty, i), Some(StreamEvent::Reset(op.peer)))
    } else if op.failed {
        (advanced(empty, i), Some(StreamEvent::Failed(op.peer)))
    } else if tick >= op.deadline && op.send_flight == 0 && !(op.fin_sent && !op.fin_acked) {
        (advanced(StackModel { link: stream_reset(m.link, op).0, ..empty }, i), Some(StreamEvent::Failed(op.peer)))
    } else {
        let (l1, op1) = send_step(m.link, op, tick);
        let (m2, op2, dead) = retry_step(StackModel { link: l1, ..empty }, op1, tick);
        if dead {
            (advanced(m2, i), Some(StreamEvent::Failed(op1.peer)))
        } else {
            report(StackModel { streams: m2.streams.update(i, Some(op2)), ..m2 }, i, op2, tick)
        }
    }
}

/// The scan of the slots from the one after `start` plus `offset`, in turn;
/// the first report ends it. The flag says a stream was seen.
pub open spec fn poll_from(m: StackModel, tick: u64, start: usize, offset: nat, seen: bool) -> (StackModel, Option<StreamEvent>, bool)
    decreases PASSIVE_TCP_STREAM_SLOTS - offset,
{
    if offset >= PASSIVE_TCP_STREAM_SLOTS {
        (m, None, seen)
    } else {
        let i = (start + offset) % PASSIVE_TCP_STREAM_SLOTS as int;
        if m.streams[i] is None {
            poll_from(m, tick, start, offset + 1, seen)
        } else {
            let (m1, event) = spec_poll_slot(m, i, tick);
            match event {
                Some(e) => (m1, Some(e), true),
                None => poll_from(m1, tick, start, offset + 1, true),
            }
        }
    }
}

/// Whether a reported progress is the event a scan found, or, without
/// one, whether any stream was seen.
pub open spec fn progress_is(r: PassiveTcpStreamProgress, event: Option<StreamEvent>, seen: bool) -> bool {
    match r {
        PassiveTcpStreamProgress::Idle => event is None && !seen,
        PassiveTcpStreamProgress::Pending => event is None && seen,
        PassiveTcpStreamProgress::Received { peer, bytes, len } => {
            &&& len <= PASSIVE_TCP_STREAM_BUFFER_CAPACITY
            &&& event == Some(StreamEvent::Received(peer, bytes@.subrange(0, len as int)))
            &&& forall|j: int| len <= j < PASSIVE_TCP_STREAM_BUFFER_CAPACITY ==> bytes@[j] == 0
        },
        PassiveTcpStreamProgress::SendComplete(p) => event == Some(StreamEvent::SendComplete(p)),
        PassiveTcpStreamProgress::PeerClosed(p) => event == Some(StreamEvent::PeerClosed(p)),
        PassiveTcpStreamProgress::Closed(p) => event == Some(StreamEvent::Closed(p)),
        PassiveTcpStreamProgress::Reset(p) => event == Some(StreamEvent::Reset(p)),
        PassiveTcpStreamProgress::Failed(p) => event == Some(StreamEvent::Failed(p)),
    }
}

pub(crate) fn padded(bytes: &Vec<u8>) -> (r: [u8; 128])
    requires
        bytes@.len() <= 128,
    ensures
        r@.subrange(0, bytes@.len() as int) == bytes@,
        forall|j: int| bytes@.len() <= j < 128 ==> r@[j] == 0,
{
    let mut r = [0u8; 128];
    let mut i: usize = 0;
    while i < bytes.len()
        invariant
            bytes@.len() <= 128,
            i <= bytes@.len(),
            forall|j: int| 0 <= j < i ==> r@[j] == bytes@[j],
            forall|j: int| i <= j < 128 ==> r@[j] == 0,
        decreases bytes@.len() - i,
    {
        r[i] = bytes[i];
        i += 1;
    }
    assert(r@.subrange(0, bytes@.len() as int) =~= bytes@);
    r
}

impl NetworkStack {
    /// Probes a zero window; see `persist_probe`.
    fn probe_window(&mut self, op: &mut StreamOperation, tick: u64)
        requires
            stream_wf(old(op)@),
        ensures
            stream_wf(final(op)@),
            final(self)@ == (StackModel { link: final(self)@.link, ..old(self)@ }),
            (final(self)@.link, final(op)@) == persist_probe(old(self)@.link, old(op)@, tick),
    {
        let window = receive_window(op);
        let sequence = op.local_sequence.wrapping_sub(1);
        assert(sequence == wrap_add(op.local_sequence, -1));
        let probe: [u8; 1] = [0u8];
        assert(probe@ =~= seq![0u8]);
        let sent = self.send_for(op, sequence, 0x10, probe.as_slice(), window);
        if !sent {
            op.failed = true;
        }
        op.persist_attempts = if op.persist_attempts + 1 < RETRIES { op.persist_attempts + 1 } else { RETRIES };
        let factor: u64 = if op.persist_attempts <= 1 { 2 } else if op.persist_attempts == 2 { 4 } else { 8 };
        let scaled = match op.rto_ticks.checked_mul(factor) {
            Some(x) => x,
            None => u64::MAX,
        };
        let interval = if scaled >= PASSIVE_TCP_STREAM_IDLE_TICKS { PASSIVE_TCP_STREAM_IDLE_TICKS } else { scaled };
        assert(interval == sat_mul_capped(old(op).rto_ticks, factor, PASSIVE_TCP_STREAM_IDLE_TICKS));
        assert(factor == probe_factor(op.persist_attempts));
        op.persist_deadline = tick.saturating_add(interval);
    }

    /// Runs the send timer of a stream; see `send_step`.
    fn run_send_timer(&mut self, op: &mut StreamOperation, tick: u64)
        requires
            stream_wf(old(op)@),
        ensures
            stream_wf(final(op)@),
            final(self)@ == (StackModel { link: final(self)@.link, ..old(self)@ }),
            (final(self)@.link, final(op)@) == send_step(old(self)@.link, old(op)@, tick),
    {
        if op.send.len() != 0 && op.send_flight == 0 {
            if op.peer_window != 0 {
                if !self.transmit_stream_flight(op, tick) {
                    op.failed = true;
                }
            } else if tick >= op.persist_deadline {
                self.probe_window(op, tick);
            }
        }
    }

    /// Runs the retransmission timer of a stream; see `retry_step`.
    fn run_retry_timer(&mut self, op: &mut StreamOperation, tick: u64) -> (dead: bool)
        requires
            stream_wf(old(op)@),
        ensures
            stream_wf(final(op)@),
            (final(self)@, final(op)@, dead) == retry_step(old(self)@, old(op)@, tick),
    {
        if tick >= op.deadline && (op.send_flight != 0 || (op.fin_sent && !op.fin_acked)) {
            let flags: u8 = if op.send_flight != 0 { 0x18 } else { 0x11 };
            let payload = if op.send_flight != 0 { slice_prefix(&op.send, op.send_flight) } else { Vec::new() };
            if op.attempts >= RETRIES {
                return true;
            }
            let window = receive_window(op);
            let sequence = op.local_sequence;
            if !self.send_for(op, sequence, flags, payload.as_slice(), window) {
                return true;
            }
            self.tcp_retransmissions = self.tcp_retransmissions.saturating_add(1);
            let half = op.congestion_window / 2;
            op.slow_start_threshold = if half < PASSIVE_TCP_MSS {
                PASSIVE_TCP_MSS
            } else if half > PASSIVE_TCP_MAX_CWND {
                PASSIVE_TCP_MAX_CWND
            } else {
                half
            };
            op.congestion_window = PASSIVE_TCP_MSS;
            if self.tcp_min_cwnd > PASSIVE_TCP_MSS {
                self.tcp_min_cwnd = PASSIVE_TCP_MSS;
            }
            self.tcp_congestion_events = self.tcp_congestion_events.saturating_add(1);
            op.attempts = op.attempts + 1;
            op.sent_at = tick;
            op.rto_ticks = if op.rto_ticks >= 2 * PASSIVE_TCP_RETRY_TICKS {
                4 * PASSIVE_TCP_RETRY_TICKS
            } else {
                2 * op.rto_ticks
            };
            op.deadline = tick.saturating_add(op.rto_ticks);
        }
        false
    }

    /// What a stream reports once its timers ran; see `report`.
    fn report_stream(&mut self, i: usize, op: &StreamOperation, tick: u64) -> (r: Option<PassiveTcpStreamProgress>)
        requires
            i < PASSIVE_TCP_STREAM_SLOTS,
            stream_wf(op@),
        ensures
            final(self)@ == report(old(self)@, i as int, op@, tick).0,
            match r {
                None => report(old(self)@, i as int, op@, tick).1 is None,
                Some(p) => report(old(self)@, i as int, op@, tick).1 is Some && progress_is(
                    p,
                    report(old(self)@, i as int, op@, tick).1,
                    true,
                ),
            },
    {
        let next = (i + 1) % PASSIVE_TCP_STREAM_SLOTS;
        if op.receive.len() != 0 {
            self.passive_stream_cursor = next;
            Some(PassiveTcpStreamProgress::Received { peer: op.peer, bytes: padded(&op.receive), len: op.receive.len() })
        } else if op.send_completed {
            self.passive_stream_cursor = next;
            Some(PassiveTcpStreamProgress::SendComplete(op.peer))
        } else if op.peer_fin && op.fin_sent && op.fin_acked {
            self.tcp_service_finished = tick;
            self.passive_stream_cursor = next;
            Some(PassiveTcpStreamProgress::Closed(op.peer))
        } else if op.peer_fin_pending {
            self.passive_stream_cursor = next;
            Some(PassiveTcpStreamProgress::PeerClosed(op.peer))
        } else {
            None
        }
    }

    /// One tick of the stream in slot `i`; see `spec_poll_slot`.
    #[verifier::rlimit(50)]
    #[verifier::spinoff_prover]
    fn poll_slot(&mut self, i: usize, tick: u64) -> (r: Option<PassiveTcpStreamProgress>)
        requires
            stack_wf(old(self)@),
            i < PASSIVE_TCP_STREAM_SLOTS,
            old(self)@.streams[i as int] is Some,
        ensures
            stack_wf(final(self)@),
            final(self)@ == spec_poll_slot(old(self)@, i as int, tick).0,
            match r {
                None => spec_poll_slot(old(self)@, i as int, tick).1 is None,
                Some(p) => spec_poll_slot(old(self)@, i as int, tick).1 is Some && progress_is(
                    p,
                    spec_poll_slot(old(self)@, i as int, tick).1,
                    true,
                ),
            },
    {
        reveal(spec_poll_slot);
        let next = (i + 1) % PASSIVE_TCP_STREAM_SLOTS;
        let mut op = self.take_stream(i);
        if op.reset {
            self.passive_stream_cursor = next;
            return Some(PassiveTcpStreamProgress::Reset(op.peer));
        }
        if op.failed {
            self.passive_stream_cursor = next;
            return Some(PassiveTcpStreamProgress::Failed(op.peer));
        }
        if tick >= op.deadline && op.send_flight == 0 && !(op.fin_sent && !op.fin_acked) {
            self.send_stream_reset(&op);
            self.passive_stream_cursor = next;
            return Some(PassiveTcpStreamProgress::Failed(op.peer));
        }
        self.run_send_timer(&mut op, tick);
        let peer = op.peer;
        if self.run_retry_timer(&mut op, tick) {
            self.passive_stream_cursor = next;
            return Some(PassiveTcpStreamProgress::Failed(peer));
        }
        let ghost before = self@;
        let ghost op2 = op@;
        let event = self.report_stream(i, &op, tick);
        self.put_stream(i, op);
        assert(self@ =~= report(StackModel { streams: before.streams.update(i as int, Some(op2)), ..before }, i as int, op2, tick).0);
        event
    }
}

/// How often the receive step asks the device for a frame per tick.
pub const PASSIVE_TCP_RX_POLLS_PER_TICK: usize = 4096;

/// An inbound TCP segment addressed to the stack, with the tuple it came
/// from.
pub struct PassiveSegment {
    pub source: [u8; 4],
    pub source_mac: [u8; 6],
    pub remote_port: u16,
    pub local_port: u16,
    pub segment: Segment,
}

pub ghost struct PassiveSegmentModel {
    pub source: Seq<u8>,
    pub source_mac: Seq<u8>,
    pub remote_port: u16,
    pub local_port: u16,
    pub segment: SegmentModel,
}

impl PassiveSegment {
    pub open spec fn view(&self) -> PassiveSegmentModel {
        PassiveSegmentModel {
            source: self.source@,
            source_mac: self.source_mac@,
            remote_port: self.remote_port,
            local_port: self.local_port,
            segment: self.segment@,
        }
    }
}

/// Whether a frame carries IPv6.
pub open spec fn is_ipv6_frame(f: Seq<u8>) -> bool {
    f.len() >= 14 && f[12] == 0x86 && f[13] == 0xdd
}

/// The frame an ICMPv6 message is sent in from `mac`, when one can be.
pub open spec fn ipv6_reply(mac: Seq<u8>, message: Option<Message>) -> Option<Seq<u8>> {
    match message {
        None => None,
        Some(msg) => if HEADER + msg.body.len() > FRAME_CAPACITY || msg.body.len() < 4 || msg.hop_limit == 0 {
            None
        } else {
            Some(control_frame(mac, msg.destination_mac, msg.source, msg.destination, msg.hop_limit, msg.body))
        },
    }
}

/// The device after it was handed `frame`, if any.
pub open spec fn send_frame(l: LinkModel, frame: Option<Seq<u8>>) -> LinkModel {
    match frame {
        Some(f) => if l.fail_transmit { l } else { LinkModel { outgoing: l.outgoing.push(f), ..l } },
        None => l,
    }
}

/// An IPv6 frame goes to the IPv6 host, if there is one, and its answer
/// out; without a host it is dropped.
pub open spec fn ipv6_frame_step(m: StackModel, f: Seq<u8>) -> StackModel {
    match m.ipv6 {
        None => m,
        Some(h) => {
            let (h1, message) = spec_receive(h, f, m.control_tick);
            StackModel { ipv6: Some(h1), link: send_frame(m.link, ipv6_reply(h.mac, message)), ..m }
        },
    }
}

/// The control tick: the IPv6 host's timers run and what it sends goes
/// out; when the device refuses it the host gives up its address and
/// route. The stack records once that the host is ready and its echo was
/// answered.
pub open spec fn spec_advance_control(m: StackModel, tick: u64) -> StackModel {
    let m1 = StackModel { control_tick: tick, ..m };
    match m.ipv6 {
        None => m1,
        Some(h) => {
            let (h1, message) = spec_poll(h, tick);
            let frame = ipv6_reply(h.mac, message);
            let refused = frame is Some && m.link.fail_transmit;
            let h2 = if refused { HostModel { state: State::Unavailable, route: None, ..h1 } } else { h1 };
            StackModel {
                link: send_frame(m.link, frame),
                ipv6: Some(h2),
                ipv6_reported: m.ipv6_reported || (h2.state == State::Ready && h2.echo_reply),
                ..m1
            }
        },
    }
}

/// The first frame other than IPv6 among the next `polls` ones the device
/// gives; the IPv6 frames before it are handled on the way.
pub open spec fn rx_next(m: StackModel, polls: nat) -> (StackModel, Option<Seq<u8>>)
    decreases polls,
{
    if polls == 0 || m.link.incoming.len() == 0 {
        (m, None)
    } else {
        let f = m.link.incoming[0];
        let m1 = StackModel { link: LinkModel { incoming: m.link.incoming.drop_first(), ..m.link }, ..m };
        if is_ipv6_frame(f) {
            rx_next(ipv6_frame_step(m1, f), (polls - 1) as nat)
        } else {
            (m1, Some(f))
        }
    }
}

/// The TCP segment a frame carries to the stack's address with a valid
/// checksum; payload past the segment capacity is cut.
#[verifier::opaque]
pub open spec fn spec_decode(l: LinkModel, frame: Seq<u8>) -> Option<PassiveSegmentModel> {
    match spec_parse_ipv4(frame) {
        None => None,
        Some(ip) => if ip.protocol != 6 || ip.destination != l.address || !spec_transport_checksum_valid(
            ip.source,
            ip.destination,
            6,
            ip.payload,
        ) {
            None
        } else {
            match spec_parse_tcp(ip.payload) {
                None => None,
                Some(t) => Some(
                    PassiveSegmentModel {
                        source: ip.source,
                        source_mac: ip.source_mac,
                        remote_port: t.source_port,
                        local_port: t.destination_port,
                        segment: SegmentModel {
                            sequence: t.sequence,
                            acknowledgment: t.acknowledgment,
                            flags: t.flags,
                            window: t.window,
                            payload: if t.payload.len() <= TCP_SEGMENT_CAPACITY {
                                t.payload
                            } else {
                                t.payload.subrange(0, TCP_SEGMENT_CAPACITY as int)
                            },
                        },
                    },
                ),
            }
        },
    }
}

/// A segment on the stream in slot `i`: the stream takes it as
/// `spec_stream_segment` says and the reply goes out; a window
/// acknowledgment the device refused fails the stream.
#[verifier::opaque]
pub open spec fn spec_handle_stream(m: StackModel, i: int, seg: SegmentModel, tick: u64) -> StackModel {
    let op = m.streams[i]->Some_0;
    let (op1, st1, reply) = spec_stream_segment(op, seg, tick, m.stats);
    match reply {
        SegmentReply::Nothing => StackModel { streams: m.streams.update(i, Some(op1)), stats: st1, ..m },
        SegmentReply::Ack => StackModel {
            link: stream_ack(m.link, op1).0,
            streams: m.streams.update(i, Some(op1)),
            stats: st1,
            ..m
        },
        SegmentReply::Reset => StackModel {
            link: stream_reset(m.link, op1).0,
            streams: m.streams.update(i, Some(op1)),
            stats: st1,
            ..m
        },
        SegmentReply::WindowAck => {
            let (l, sent) = stream_ack(m.link, op1);
            StackModel {
                link: l,
                streams: m.streams.update(i, Some(if sent { op1 } else { StreamModel { failed: true, ..op1 } })),
                stats: st1,
                ..m
            }
        },
    }
}

/// A segment goes to the stream of its exact tuple, else to the handshake
/// of its tuple; from any other tuple only a SYN counts, and it is offered
/// to the user.
pub open spec fn spec_route(m: StackModel, p: PassiveSegmentModel, tick: u64) -> StackModel {
    match find_tuple(m.streams, p.source, p.remote_port, p.local_port, 0) {
        Some(i) => spec_handle_stream(m, i, p.segment, tick),
        None => match find_handshake(m.handshakes, p.source, p.remote_port, p.local_port, 0) {
            Some(i) => spec_handle_handshake(m, i, p, tick),
            None => spec_offer_syn(m, p),
        },
    }
}

/// The shared receive step: at most one frame is taken per tick, decoded
/// once and routed.
#[verifier::opaque]
pub open spec fn spec_pump(m: StackModel, tick: u64) -> StackModel {
    if !m.available {
        m
    } else {
        let (m1, f) = rx_next(m, PASSIVE_TCP_RX_POLLS_PER_TICK as nat);
        match f {
            None => m1,
            Some(frame) => match spec_decode(m1.link, frame) {
                None => m1,
                Some(p) => spec_route(m1, p, tick),
            },
        }
    }
}

/// One tick of the passive streams: the receive step, then the scan from
/// the slot after the last one that reported.
pub open spec fn spec_poll_streams(m: StackModel, tick: u64) -> (StackModel, Option<StreamEvent>, bool) {
    let m1 = spec_pump(m, tick);
    poll_from(m1, tick, m1.cursor, 0, false)
}

pub(crate) fn prefix_of(s: &[u8], len: usize) -> (r: Vec<u8>)
    requires
        len <= s@.len(),
    ensures
        r@ == s@.subrange(0, len as int),
{
    let mut r: Vec<u8> = Vec::new();
    let mut i: usize = 0;
    while i < len
        invariant
            len <= s@.len(),
            i <= len,
            r@ == s@.subrange(0, i as int),
        decreases len - i,
    {
        r.push(s[i]);
        i += 1;
        assert(r@ =~= s@.subrange(0, i as int));
    }
    r
}

pub(crate) fn same_address(a: [u8; 4], b: [u8; 4]) -> (r: bool)
    ensures
        r == (a@ == b@),
{
    let r = a[0] == b[0] && a[1] == b[1] && a[2] == b[2] && a[3] == b[3];
    if r {
        assert(a@ =~= b@);
    }
    r
}

impl NetworkStack {
    /// The TCP segment in `frame`; see `spec_decode`.
    pub fn decode_passive_segment(&self, frame: &[u8]) -> (r: Option<PassiveSegment>)
        ensures
            match r {
                None => spec_decode(self@.link, frame@) is None,
                Some(p) => spec_decode(self@.link, frame@) == Some(p@),
            },
    {
        reveal(spec_decode);
        let ip = match parse_ipv4_frame(frame) {
            Some(ip) => ip,
            None => return None,
        };
        if ip.protocol != 6 || !same_address(ip.destination, self.address) || !transport_checksum_valid(
            ip.source,
            ip.destination,
            ip.protocol,
            ip.payload,
        ) {
            return None;
        }
        let tcp = match parse_tcp(ip.payload) {
            Some(t) => t,
            None => return None,
        };
        let len = if tcp.payload.len() <= TCP_SEGMENT_CAPACITY { tcp.payload.len() } else { TCP_SEGMENT_CAPACITY };
        let payload = prefix_of(tcp.payload, len);
        assert(tcp.payload@.len() <= TCP_SEGMENT_CAPACITY ==> payload@ =~= tcp.payload@);
        Some(
            PassiveSegment {
                source: ip.source,
                source_mac: ip.source_mac,
                remote_port: tcp.source_port,
                local_port: tcp.destination_port,
                segment: Segment {
                    sequence: tcp.sequence,
                    acknowledgment: tcp.acknowledgment,
                    flags: tcp.flags,
                    window: tcp.window,
                    payload,
                },
            },
        )
    }

    /// A segment on the stream in slot `i`; see `spec_handle_stream`.
    #[verifier::rlimit(50)]
    #[verifier::spinoff_prover]
    fn handle_stream_segment(&mut self, i: usize, seg: &Segment, tick: u64)
        requires
            stack_wf(old(self)@),
            i < PASSIVE_TCP_STREAM_SLOTS,
            old(self)@.streams[i as int] is Some,
        ensures
            stack_wf(final(self)@),
            final(self)@ == spec_handle_stream(old(self)@, i as int, seg@, tick),
    {
        reveal(spec_handle_stream);
        let ghost m0 = self@;
        let mut op = self.take_stream(i);
        let reply = stream_segment(&mut op, seg, tick, &mut self.stream_stats);
        match reply {
            SegmentReply::Nothing => {},
            SegmentReply::Ack => {
                self.send_stream_ack(&op);
            },
            SegmentReply::Reset => {
                self.send_stream_reset(&op);
            },
            SegmentReply::WindowAck => {
                if !self.send_stream_ack(&op) {
                    op.failed = true;
                }
            },
        }
        let ghost op1 = op@;
        self.put_stream(i, op);
        assert(self@.streams =~= m0.streams.update(i as int, Some(op1)));
    }

    /// Routes a decoded segment; see `spec_route`.
    #[verifier::spinoff_prover]
    fn route_passive_segment(&mut self, p: &PassiveSegment, tick: u64)
        requires
            stack_wf(old(self)@),
        ensures
            stack_wf(final(self)@),
            final(self)@ == spec_route(old(self)@, p@, tick),
    {
        match self.stream_slot_for_tuple(p.source, p.remote_port, p.local_port) {
            Some(i) => {
                proof {
                    lemma_find_tuple(self@.streams, p.source@, p.remote_port, p.local_port, 0);
                }
                self.handle_stream_segment(i, &p.segment, tick);
            },
            None => match self.handshake_slot_for_tuple(p.source, p.remote_port, p.local_port) {
                Some(i) => {
                    proof {
                        lemma_find_handshake(self@.handshakes, p.source@, p.remote_port, p.local_port, 0);
                    }
                    self.handle_handshake_segment(i, p, tick);
                },
                None => {
                    self.offer_syn(p);
                },
            },
        }
    }

    /// Hands an IPv6 frame to the IPv6 host; see `ipv6_frame_step`.
    fn handle_ipv6_frame(&mut self, f: &[u8])
        requires
            stack_wf(old(self)@),
        ensures
            stack_wf(final(self)@),
            final(self)@ == ipv6_frame_step(old(self)@, f@),
    {
        let mut host = match self.ipv6.take() {
            Some(h) => h,
            None => return,
        };
        let ghost before = host.model();
        let mut reply = [0u8; FRAME_CAPACITY];
        let answer = host.receive(f, self.control_tick, &mut reply);
        if let Some(len) = answer {
            let frame = prefix_of(reply.as_slice(), len);
            assert(frame@ =~= control_frame(
                before.mac,
                spec_receive(before, f@, old(self)@.control_tick).1->Some_0.destination_mac,
                spec_receive(before, f@, old(self)@.control_tick).1->Some_0.source,
                spec_receive(before, f@, old(self)@.control_tick).1->Some_0.destination,
                spec_receive(before, f@, old(self)@.control_tick).1->Some_0.hop_limit,
                spec_receive(before, f@, old(self)@.control_tick).1->Some_0.body,
            ));
            let _ = self.device.transmit(frame.as_slice());
        }
        self.ipv6 = Some(host);
    }

    /// The control tick; see `spec_advance_control`.
    pub fn advance_control(&mut self, tick: u64)
        requires
            stack_wf(old(self)@),
        ensures
            stack_wf(final(self)@),
            final(self)@ == spec_advance_control(old(self)@, tick),
    {
        self.control_tick = tick;
        let mut host = match self.ipv6.take() {
            Some(h) => h,
            None => return,
        };
        let ghost before = host.model();
        let mut frame = [0u8; FRAME_CAPACITY];
        if let Some(len) = host.poll(tick, &mut frame) {
            let out = prefix_of(frame.as_slice(), len);
            assert(out@ =~= control_frame(
                before.mac,
                spec_poll(before, tick).1->Some_0.destination_mac,
                spec_poll(before, tick).1->Some_0.source,
                spec_poll(before, tick).1->Some_0.destination,
                spec_poll(before, tick).1->Some_0.hop_limit,
                spec_poll(before, tick).1->Some_0.body,
            ));
            if !self.device.transmit(out.as_slice()) {
                host.state = State::Unavailable;
                host.route = None;
            }
        }
        if !self.ipv6_reported && host.state == State::Ready && host.echo_reply {
            self.ipv6_reported = true;
        }
        self.ipv6 = Some(host);
    }

    /// The first frame other than IPv6 that the device gives within the poll
    /// budget, the IPv6 frames before it handled; see `rx_next`.
    pub fn receive_frame(&mut self) -> (r: Option<Vec<u8>>)
        requires
            stack_wf(old(self)@),
        ensures
            stack_wf(final(self)@),
            final(self)@ == (StackModel { link: final(self)@.link, ipv6: final(self)@.ipv6, ..old(self)@ }),
            (final(self)@, match r {
                Some(f) => Some(f@),
                None => None,
            }) == rx_next(old(self)@, PASSIVE_TCP_RX_POLLS_PER_TICK as nat),
    {
        let mut frame: Option<Vec<u8>> = None;
        let mut polls: usize = 0;
        while polls < PASSIVE_TCP_RX_POLLS_PER_TICK && frame.is_none()
            invariant
                polls <= PASSIVE_TCP_RX_POLLS_PER_TICK,
                stack_wf(self@),
                self@ == (StackModel { link: self@.link, ipv6: self@.ipv6, ..old(self)@ }),
                frame is None ==> rx_next(old(self)@, PASSIVE_TCP_RX_POLLS_PER_TICK as nat) == rx_next(
                    self@,
                    (PASSIVE_TCP_RX_POLLS_PER_TICK - polls) as nat,
                ),
                frame is Some ==> rx_next(old(self)@, PASSIVE_TCP_RX_POLLS_PER_TICK as nat) == (
                    self@,
                    Some(frame->Some_0@),
                ),
            decreases PASSIVE_TCP_RX_POLLS_PER_TICK - polls,
        {
            let ghost before = self@;
            match self.device.receive() {
                None => {
                    assert(self@ == before);
                },
                Some(f) => {
                    let ghost m1 = StackModel {
                        link: LinkModel { incoming: before.link.incoming.drop_first(), ..before.link },
                        ..before
                    };
                    assert(self@ == m1);
                    if !(f.len() >= 14 && f[12] == 0x86 && f[13] == 0xdd) {
                        frame = Some(f);
                    } else {
                        self.handle_ipv6_frame(f.as_slice());
                    }
                },
            }
            polls += 1;
        }
        proof {
            if frame is None {
                assert(rx_next(self@, 0) == (self@, None::<Seq<u8>>));
            }
        }
        frame
    }

    /// The shared receive step; see `spec_pump`.
    pub fn pump_passive_rx(&mut self, tick: u64)
        requires
            stack_wf(old(self)@),
        ensures
            stack_wf(final(self)@),
            final(self)@ == spec_pump(old(self)@, tick),
    {
        reveal(spec_pump);
        if !self.available {
            return;
        }
        let frame = self.receive_frame();
        let ghost m1 = self@;
        if let Some(f) = frame {
            if let Some(p) = self.decode_passive_segment(f.as_slice()) {
                self.route_passive_segment(&p, tick);
            }
        }
    }

    /// One tick of the passive streams; see `spec_poll_streams`.
    pub fn poll_tcp_passive_stream(&mut self, tick: u64) -> (r: PassiveTcpStreamProgress)
        requires
            stack_wf(old(self)@),
        ensures
            stack_wf(final(self)@),
            final(self)@ == spec_poll_streams(old(self)@, tick).0,
            progress_is(r, spec_poll_streams(old(self)@, tick).1, spec_poll_streams(old(self)@, tick).2),
    {
        self.pump_passive_rx(tick);
        let ghost m1 = self@;
        let start = self.passive_stream_cursor;
        let mut any = false;
        let mut offset: usize = 0;
        while offset < PASSIVE_TCP_STREAM_SLOTS
            invariant
                stack_wf(self@),
                offset <= PASSIVE_TCP_STREAM_SLOTS,
                start == m1.cursor,
                start < PASSIVE_TCP_STREAM_SLOTS,
                m1 == spec_pump(old(self)@, tick),
                poll_from(m1, tick, start, 0, false) == poll_from(self@, tick, start, offset as nat, any),
            decreases PASSIVE_TCP_STREAM_SLOTS - offset,
        {
            let index = (start + offset) % PASSIVE_TCP_STREAM_SLOTS;
            assert(self@.streams[index as int] == slot_model(self.passive_streams@[index as int]));
            let ghost before = self@;
            let ghost seen = any;
            if self.passive_streams[index].is_some() {
                any = true;
                let polled = self.poll_slot(index, tick);
                assert(poll_from(before, tick, start, offset as nat, seen) == match spec_poll_slot(before, index as int, tick).1 {
                    Some(e) => (spec_poll_slot(before, index as int, tick).0, Some(e), true),
                    None => poll_from(spec_poll_slot(before, index as int, tick).0, tick, start, offset as nat + 1, true),
                });
                if let Some(p) = polled {
                    return p;
                }
            }
            offset += 1;
        }
        if any {
            PassiveTcpStreamProgress::Pending
        } else {
            PassiveTcpStreamProgress::Idle
        }
    }
}

/// A segment changes no stream but the one of its own tuple.
pub proof fn lemma_route_touches_own_stream_only(m: StackModel, p: PassiveSegmentModel, tick: u64, j: int)
    requires
        stack_wf(m),
        0 <= j < m.streams.len(),
        m.streams[j] is None || !tuple_matches(m.streams[j]->Some_0, p.source, p.remote_port, p.local_port),
    ensures
        spec_route(m, p, tick).streams[j] == m.streams[j],
{
    lemma_find_tuple(m.streams, p.source, p.remote_port, p.local_port, 0);
    reveal(spec_handle_stream);
    reveal(spec_handle_handshake);
    reveal(spec_offer_syn);
}

/// A frame that does not decode to a segment for the stack, a corrupted or
/// truncated one among them, changes nothing beyond taking it, and the
/// IPv6 frames before it, from the device.
pub proof fn lemma_undecodable_frame_changes_nothing(m: StackModel, tick: u64)
    requires
        m.available,
        rx_next(m, PASSIVE_TCP_RX_POLLS_PER_TICK as nat).1 matches Some(f) && spec_decode(
            rx_next(m, PASSIVE_TCP_RX_POLLS_PER_TICK as nat).0.link,
            f,
        ) is None,
    ensures
        spec_pump(m, tick) == rx_next(m, PASSIVE_TCP_RX_POLLS_PER_TICK as nat).0,
{
    reveal(spec_pump);
}

/// Cancelling a stream frees its slot and leaves every other slot as it
/// was.
pub proof fn lemma_cancel_leaves_siblings(m: StackModel, peer: TcpServerPeer, j: int)
    requires
        stack_wf(m),
        0 <= j < m.streams.len(),
    ensures
        m.streams[j] is None || m.streams[j]->Some_0.peer != peer ==> spec_cancel(m, peer).streams[j] == m.streams[j],
        find_peer(m.streams, peer, 0) matches Some(i) ==> spec_cancel(m, peer).streams[i] is None,
{
    lemma_find_peer(m.streams, peer, 0);
}

proof fn lemma_be16_seq(x: u16)
    ensures
        be16(be16_seq(x), 0) == x,
{
    assert(256 * (x / 256) + x % 256 == x) by (nonlinear_arith);
}

proof fn lemma_be32_seq(v: u32)
    ensures
        be32(spec_be32_bytes(v), 0) == v,
{
    let b = spec_be32_bytes(v);
    assert(65536 * (256 * (v / 0x100_0000) + (v / 0x1_0000) % 256) + 256 * ((v / 0x100) % 256) + v % 256 == v)
        by (nonlinear_arith);
}

/// A segment built with `tcp_segment` and its checksum parses back to the
/// values it was built from.
proof fn lemma_built_segment_parses(
    source: Seq<u8>,
    destination: Seq<u8>,
    source_port: u16,
    destination_port: u16,
    sequence: u32,
    acknowledgment: u32,
    flags: u8,
    window: u16,
    payload: Seq<u8>,
)
    ensures
        spec_parse_tcp(
            with_tcp_checksum(
                source,
                destination,
                tcp_segment(source_port, destination_port, sequence, acknowledgment, flags, window, payload),
            ),
        ) == Some(
            TcpInfo {
                source_port,
                destination_port,
                sequence,
                acknowledgment,
                flags,
                window,
                payload,
            },
        ),
{
    let seg0 = tcp_segment(source_port, destination_port, sequence, acknowledgment, flags, window, payload);
    let seg = with_tcp_checksum(source, destination, seg0);
    lemma_be16_seq(source_port);
    lemma_be16_seq(destination_port);
    lemma_be16_seq(window);
    lemma_be32_seq(sequence);
    lemma_be32_seq(acknowledgment);
    assert(be16(seg, 0) == be16(be16_seq(source_port), 0));
    assert(be16(seg, 2) == be16(be16_seq(destination_port), 0));
    assert(be32(seg, 4) == be32(spec_be32_bytes(sequence), 0));
    assert(be32(seg, 8) == be32(spec_be32_bytes(acknowledgment), 0));
    assert(be16(seg, 14) == be16(be16_seq(window), 0));
    assert(seg[12] == 0x50u8 && seg[13] == flags);
    assert(seg.subrange(20, seg.len() as int) =~= payload);
}

/// The word sum of the pseudo-header.
proof fn lemma_pseudo_header_sum(source: Seq<u8>, destination: Seq<u8>, len: int)
    requires
        source.len() == 4,
        destination.len() == 4,
        0 <= len < 0x10000,
    ensures
        word_sum(pseudo_header(source, destination, 6, len)) == word_sum(source) + word_sum(destination) + 6 + len,
{
    let p = pseudo_header(source, destination, 6, len);
    reveal_with_fuel(words, 7);
    assert(p.len() == 12);
    assert(256 * (len / 256) + len % 256 == len) by (nonlinear_arith)
        requires
            0 <= len,
    ;
}

/// A segment carrying its checksum passes the receiver's check.
#[verifier::rlimit(100)]
#[verifier::spinoff_prover]
proof fn lemma_built_segment_checksum(source: Seq<u8>, destination: Seq<u8>, seg0: Seq<u8>)
    requires
        source.len() == 4,
        destination.len() == 4,
        20 <= seg0.len() <= TCP_SEGMENT_CAPACITY,
        seg0[16] == 0,
        seg0[17] == 0,
    ensures
        spec_transport_checksum_valid(source, destination, 6, with_tcp_checksum(source, destination, seg0)),
{
    let pseudo = pseudo_header(source, destination, 6, seg0.len() as int);
    let b = pseudo + seg0;
    let c = spec_checksum(b);
    let seg = with_tcp_checksum(source, destination, seg0);
    assert(pseudo.len() == 12);
    lemma_checksum_inserted(b, 28);
    let b2 = b.update(28, (c / 256) as u8).update(29, (c % 256) as u8);
    assert(seg =~= seg0.update(16, (c / 256) as u8).update(17, (c % 256) as u8));
    assert(b2 =~= pseudo + seg);
    lemma_word_sum_concat(pseudo, seg);
    lemma_pseudo_header_sum(source, destination, seg0.len() as int);
    let total = word_sum(source) + word_sum(destination) + 6 + seg.len() + word_sum(seg);
    assert(total == word_sum(b2));
    assert(total % 0x1_0000_0000 == total);
    assert(fold(total as nat) == 0xffff);
}

/// An IPv4 frame built with `ipv4_frame` parses back to what it carries.
proof fn lemma_built_frame_parses(
    destination_mac: Seq<u8>,
    source_mac: Seq<u8>,
    id: u16,
    source: Seq<u8>,
    destination: Seq<u8>,
    protocol: u8,
    payload: Seq<u8>,
)
    requires
        destination_mac.len() == 6,
        source_mac.len() == 6,
        source.len() == 4,
        destination.len() == 4,
        payload.len() + 34 <= MAX_FRAME,
    ensures
        spec_parse_ipv4(ipv4_frame(destination_mac, source_mac, id, source, destination, protocol, payload)) == Some(
            Ipv4Info { source_mac, source, destination, protocol, payload },
        ),
{
    let total = (20 + payload.len()) as u16;
    let header0 = ipv4_header(total, id, protocol, source, destination);
    let c = spec_checksum(header0);
    let header = header0.update(10, (c / 256) as u8).update(11, (c % 256) as u8);
    let frame = ipv4_frame(destination_mac, source_mac, id, source, destination, protocol, payload);
    assert(header0.len() == 20);
    lemma_checksum_inserted(header0, 10);
    let ip = frame.subrange(14, frame.len() as int);
    assert(ip =~= header + payload);
    assert(frame[12] == 8u8 && frame[13] == 0u8);
    assert(ip[0] == 0x45u8);
    lemma_be16_seq(total);
    assert(be16(ip, 2) == be16(be16_seq(total), 0));
    assert(be16(ip, 6) == 0x4000);
    assert(ip.subrange(0, 20) =~= header);
    assert(ip.subrange(20, total as int) =~= payload);
    assert(frame.subrange(6, 12) =~= source_mac);
    assert(ip.subrange(12, 16) =~= source);
    assert(ip.subrange(16, 20) =~= destination);
}

/// What the stack sends is what the destination decodes: a TCP segment
/// the device took comes out of the receiving stack's decoder with the
/// sender's address and ports and the same sequence numbers, flags, window
/// and payload.
pub proof fn lemma_sent_segment_decodes(
    l: LinkModel,
    mac: Seq<u8>,
    destination: Seq<u8>,
    source_port: u16,
    destination_port: u16,
    sequence: u32,
    acknowledgment: u32,
    flags: u8,
    payload: Seq<u8>,
    window: u16,
    receiver: LinkModel,
)
    requires
        mac.len() == 6,
        l.mac.len() == 6,
        l.address.len() == 4,
        destination.len() == 4,
        receiver.address == destination,
        spec_send_tcp(l, mac, destination, source_port, destination_port, sequence, acknowledgment, flags, payload, window).1,
    ensures
        ({
            let sent = spec_send_tcp(
                l,
                mac,
                destination,
                source_port,
                destination_port,
                sequence,
                acknowledgment,
                flags,
                payload,
                window,
            ).0;
            &&& sent.outgoing.len() == l.outgoing.len() + 1
            &&& sent.outgoing.drop_last() == l.outgoing
            &&& spec_decode(receiver, sent.outgoing.last()) == Some(
                PassiveSegmentModel {
                    source: l.address,
                    source_mac: l.mac,
                    remote_port: source_port,
                    local_port: destination_port,
                    segment: SegmentModel { sequence, acknowledgment, flags, window, payload },
                },
            )
        }),
{
    reveal(spec_send_tcp);
    reveal(spec_send_ipv4);
    reveal(spec_decode);
    let seg0 = tcp_segment(source_port, destination_port, sequence, acknowledgment, flags, window, payload);
    let seg = with_tcp_checksum(l.address, destination, seg0);
    assert(seg0.len() == 20 + payload.len());
    assert(seg0[16] == 0u8 && seg0[17] == 0u8);
    lemma_built_segment_checksum(l.address, destination, seg0);
    lemma_built_segment_parses(l.address, destination, source_port, destination_port, sequence, acknowledgment, flags, window, payload);
    lemma_built_frame_parses(mac, l.mac, l.ip_id, l.address, destination, 6, seg);
    let sent = spec_send_tcp(l, mac, destination, source_port, destination_port, sequence, acknowledgment, flags, payload, window).0;
    assert(sent.outgoing.drop_last() =~= l.outgoing);
}

} // verus!
