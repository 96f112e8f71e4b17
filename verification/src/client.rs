//! The stack's own UDP request and TCP exchange, one at a time, each driven
//! by the scheduler tick: the next hop's address is resolved by ARP, the
//! request goes out, and the reply is collected, with bounded retries.
use vstd::prelude::*;
use crate::net::{
    parse_arp_reply, parse_ipv4_frame, parse_tcp, parse_udp, spec_parse_arp_reply, spec_parse_ipv4, spec_parse_tcp,
    spec_parse_udp, spec_transport_checksum_valid, transport_checksum_valid,
};
use crate::network::{
    has_flag, sat_add, wrap_add, AsyncTcpProgress, AsyncUdpProgress, ASYNC_BUFFER_CAPACITY,
    PASSIVE_TCP_RECEIVE_CAPACITY,
};
use crate::network_stack::{
    no_payload,prefix_of, spec_send_tcp};
use crate::network_stack::{
    be16_seq, bytes_of, padded, push_all, push_be16, rx_next, same_address, spec_send_ipv4, stack_wf,
    LinkModel, NetworkStack, StackModel, PASSIVE_TCP_RX_POLLS_PER_TICK, RETRIES, TCP_SEGMENT_CAPACITY,
};

verus! {

pub enum AsyncUdpPhase {
    Resolve,
    Response { mac: [u8; 6] },
}

/// The UDP request under way.
pub struct AsyncUdpOperation {
    pub target: [u8; 4],
    pub next_hop: [u8; 4],
    pub remote_port: u16,
    pub local_port: u16,
    pub request: Vec<u8>,
    pub phase: AsyncUdpPhase,
    pub attempts: usize,
    pub deadline: u64,
}

pub enum AsyncTcpPhase {
    Resolve,
    Syn { mac: [u8; 6] },
    Response { mac: [u8; 6], local_seq: u32, remote_seq: u32, bytes: Vec<u8> },
}

/// The TCP exchange under way.
pub struct AsyncTcpOperation {
    pub target: [u8; 4],
    pub next_hop: [u8; 4],
    pub remote_port: u16,
    pub local_port: u16,
    pub initial_seq: u32,
    pub request: Vec<u8>,
    pub phase: AsyncTcpPhase,
    pub attempts: usize,
    pub deadline: u64,
}

pub ghost enum UdpPhaseModel {
    Resolve,
    Response(Seq<u8>),
}

pub ghost struct AsyncUdpModel {
    pub target: Seq<u8>,
    pub next_hop: Seq<u8>,
    pub remote_port: u16,
    pub local_port: u16,
    pub request: Seq<u8>,
    pub phase: UdpPhaseModel,
    pub attempts: usize,
    pub deadline: u64,
}

pub ghost enum TcpPhaseModel {
    Resolve,
    Syn(Seq<u8>),
    Response { mac: Seq<u8>, local_seq: u32, remote_seq: u32, bytes: Seq<u8> },
}

pub ghost struct AsyncTcpModel {
    pub target: Seq<u8>,
    pub next_hop: Seq<u8>,
    pub remote_port: u16,
    pub local_port: u16,
    pub initial_seq: u32,
    pub request: Seq<u8>,
    pub phase: TcpPhaseModel,
    pub attempts: usize,
    pub deadline: u64,
}

impl AsyncUdpOperation {
    pub open spec fn view(&self) -> AsyncUdpModel {
        AsyncUdpModel {
            target: self.target@,
            next_hop: self.next_hop@,
            remote_port: self.remote_port,
            local_port: self.local_port,
            request: self.request@,
            phase: match self.phase {
                AsyncUdpPhase::Resolve => UdpPhaseModel::Resolve,
                AsyncUdpPhase::Response { mac } => UdpPhaseModel::Response(mac@),
            },
            attempts: self.attempts,
            deadline: self.deadline,
        }
    }
}

impl AsyncTcpOperation {
    pub open spec fn view(&self) -> AsyncTcpModel {
        AsyncTcpModel {
            target: self.target@,
            next_hop: self.next_hop@,
            remote_port: self.remote_port,
            local_port: self.local_port,
            initial_seq: self.initial_seq,
            request: self.request@,
            phase: match self.phase {
                AsyncTcpPhase::Resolve => TcpPhaseModel::Resolve,
                AsyncTcpPhase::Syn { mac } => TcpPhaseModel::Syn(mac@),
                AsyncTcpPhase::Response { mac, local_seq, remote_seq, bytes } => TcpPhaseModel::Response {
                    mac: mac@,
                    local_seq,
                    remote_seq,
                    bytes: bytes@,
                },
            },
            attempts: self.attempts,
            deadline: self.deadline,
        }
    }
}

pub open spec fn udp_slot_model(slot: Option<AsyncUdpOperation>) -> Option<AsyncUdpModel> {
    match slot {
        Some(op) => Some(op@),
        None => None,
    }
}

pub open spec fn tcp_slot_model(slot: Option<AsyncTcpOperation>) -> Option<AsyncTcpModel> {
    match slot {
        Some(op) => Some(op@),
        None => None,
    }
}

/// Ticks between two sends of the same request.
pub const ASYNC_RETRY_TICKS: u64 = 25;

/// An ARP request from the stack for `target`.
pub open spec fn arp_request_frame(mac: Seq<u8>, address: Seq<u8>, target: Seq<u8>) -> Seq<u8> {
    seq![0xffu8, 0xffu8, 0xffu8, 0xffu8, 0xffu8, 0xffu8] + mac + seq![8u8, 6u8, 0u8, 1u8, 8u8, 0u8, 6u8, 4u8, 0u8, 1u8]
        + mac + address + seq![0u8, 0u8, 0u8, 0u8, 0u8, 0u8] + target
}

/// Broadcasts an ARP request, unless the device refuses it.
pub open spec fn spec_send_arp(l: LinkModel, target: Seq<u8>) -> (LinkModel, bool) {
    if l.fail_transmit {
        (l, false)
    } else {
        (LinkModel { outgoing: l.outgoing.push(arp_request_frame(l.mac, l.address, target)), ..l }, true)
    }
}

/// A UDP datagram without a checksum.
pub open spec fn udp_datagram(source_port: u16, destination_port: u16, payload: Seq<u8>) -> Seq<u8> {
    be16_seq(source_port) + be16_seq(destination_port) + be16_seq((8 + payload.len()) as u16) + seq![0u8, 0u8]
        + payload
}

/// Sends one UDP datagram; a payload that would not fit a segment is
/// refused.
pub open spec fn spec_send_udp(
    l: LinkModel,
    mac: Seq<u8>,
    source: Seq<u8>,
    destination: Seq<u8>,
    source_port: u16,
    destination_port: u16,
    payload: Seq<u8>,
) -> (LinkModel, bool) {
    if 8 + payload.len() > TCP_SEGMENT_CAPACITY {
        (l, false)
    } else {
        spec_send_ipv4(l, mac, source, destination, 17, udp_datagram(source_port, destination_port, payload))
    }
}

/// Whether `d` lies in the stack's subnet.
pub open spec fn same_subnet(m: StackModel, d: Seq<u8>) -> bool {
    &&& d[0] & m.subnet[0] == m.link.address[0] & m.subnet[0]
    &&& d[1] & m.subnet[1] == m.link.address[1] & m.subnet[1]
    &&& d[2] & m.subnet[2] == m.link.address[2] & m.subnet[2]
    &&& d[3] & m.subnet[3] == m.link.address[3] & m.subnet[3]
}

/// The address a datagram for `d` is sent to first.
pub open spec fn next_hop(m: StackModel, d: Seq<u8>) -> Seq<u8> {
    if same_subnet(m, d) { d } else { m.gateway }
}

/// The ephemeral port after `p`.
pub open spec fn port_after(p: u16) -> u16 {
    if p == u16::MAX || p + 1 < 49152 { 49152 } else { (p + 1) as u16 }
}

/// Whether a passive handshake or stream is under way.
pub open spec fn passive_active(m: StackModel) -> bool {
    (exists|i: int| 0 <= i < m.handshakes.len() && m.handshakes[i] is Some) || (exists|i: int|
        0 <= i < m.streams.len() && m.streams[i] is Some)
}

/// Starts the stack's UDP request: refused while the stack is down, while
/// another request or any passive service is under way, for a zero
/// address or port, and for no bytes or more than a buffer holds.
pub open spec fn spec_start_udp(m: StackModel, target: Seq<u8>, port: u16, request: Seq<u8>, tick: u64) -> (StackModel, bool) {
    if !m.available || m.async_udp is Some || m.async_tcp is Some || passive_active(m) || target == seq![
        0u8,
        0u8,
        0u8,
        0u8,
    ] || port == 0 || request.len() == 0 || request.len() > ASYNC_BUFFER_CAPACITY {
        (m, false)
    } else {
        (
            StackModel {
                next_port: port_after(m.next_port),
                async_udp: Some(
                    AsyncUdpModel {
                        target,
                        next_hop: next_hop(m, target),
                        remote_port: port,
                        local_port: m.next_port,
                        request,
                        phase: UdpPhaseModel::Resolve,
                        attempts: 0,
                        deadline: tick,
                    },
                ),
                ..m
            },
            true,
        )
    }
}

/// What a UDP request ends with.
pub ghost enum AsyncOutcome {
    Idle,
    Pending,
    Complete(Seq<u8>),
    Failed,
}

/// The payload of the reply to a UDP request: from the target to the
/// stack's address with a valid checksum, between the request's ports.
#[verifier::opaque]
pub open spec fn udp_reply(l: LinkModel, frame: Seq<u8>, op: AsyncUdpModel) -> Option<Seq<u8>> {
    match spec_parse_ipv4(frame) {
        None => None,
        Some(ip) => if ip.protocol != 17 || ip.source != op.target || ip.destination != l.address
            || !spec_transport_checksum_valid(ip.source, ip.destination, 17, ip.payload) {
            None
        } else {
            match spec_parse_udp(ip.payload) {
                Some((sp, dp, payload)) => if sp == op.remote_port && dp == op.local_port {
                    Some(payload)
                } else {
                    None
                },
                None => None,
            }
        },
    }
}

/// At most a buffer's worth of `b`.
pub open spec fn cut(b: Seq<u8>) -> Seq<u8> {
    if b.len() <= ASYNC_BUFFER_CAPACITY { b } else { b.subrange(0, ASYNC_BUFFER_CAPACITY as int) }
}

/// The request sent to `mac`.
pub open spec fn send_request(l: LinkModel, op: AsyncUdpModel, mac: Seq<u8>) -> (LinkModel, bool) {
    spec_send_udp(l, mac, l.address, op.target, op.local_port, op.remote_port, op.request)
}

/// A received frame in the request's current phase: in resolution, an ARP
/// reply from the next hop sends the request to its address; afterwards,
/// the reply completes the request. The flag is the outcome, if any.
pub open spec fn udp_receive_step(m: StackModel, op: AsyncUdpModel, frame: Seq<u8>, tick: u64) -> (StackModel, AsyncUdpModel, Option<AsyncOutcome>) {
    match op.phase {
        UdpPhaseModel::Resolve => match spec_parse_arp_reply(frame, op.next_hop, m.link.address) {
            None => (m, op, None),
            Some(mac) => {
                let (l, sent) = send_request(m.link, op, mac);
                if !sent {
                    (StackModel { link: l, ..m }, op, Some(AsyncOutcome::Failed))
                } else {
                    (
                        StackModel { link: l, ..m },
                        AsyncUdpModel {
                            phase: UdpPhaseModel::Response(mac),
                            attempts: 1,
                            deadline: sat_add(tick, ASYNC_RETRY_TICKS as int),
                            ..op
                        },
                        None,
                    )
                }
            },
        },
        UdpPhaseModel::Response(_) => match udp_reply(m.link, frame, op) {
            Some(payload) => (m, op, Some(AsyncOutcome::Complete(cut(payload)))),
            None => (m, op, None),
        },
    }
}

/// When the request's timer expires, the ARP request or the request is
/// sent again, up to `RETRIES` times.
pub open spec fn udp_timer_step(m: StackModel, op: AsyncUdpModel, tick: u64) -> (StackModel, AsyncOutcome) {
    if tick >= op.deadline {
        if op.attempts >= RETRIES {
            (m, AsyncOutcome::Failed)
        } else {
            let (l, sent) = match op.phase {
                UdpPhaseModel::Resolve => spec_send_arp(m.link, op.next_hop),
                UdpPhaseModel::Response(mac) => send_request(m.link, op, mac),
            };
            if !sent {
                (StackModel { link: l, ..m }, AsyncOutcome::Failed)
            } else {
                (
                    StackModel {
                        link: l,
                        async_udp: Some(
                            AsyncUdpModel {
                                attempts: (op.attempts + 1) as usize,
                                deadline: sat_add(tick, ASYNC_RETRY_TICKS as int),
                                ..op
                            },
                        ),
                        ..m
                    },
                    AsyncOutcome::Pending,
                )
            }
        }
    } else {
        (StackModel { async_udp: Some(op), ..m }, AsyncOutcome::Pending)
    }
}

/// One tick of the stack's UDP request: at most one frame is taken, then
/// the retry timer runs; a finished or failed request is dropped.
pub open spec fn spec_poll_udp(m: StackModel, tick: u64) -> (StackModel, AsyncOutcome) {
    match m.async_udp {
        None => (m, AsyncOutcome::Idle),
        Some(op) => {
            let (m0, f) = rx_next(StackModel { async_udp: None, ..m }, PASSIVE_TCP_RX_POLLS_PER_TICK as nat);
            let (m1, op1, outcome) = match f {
                None => (m0, op, None),
                Some(frame) => udp_receive_step(m0, op, frame, tick),
            };
            match outcome {
                Some(o) => (m1, o),
                None => udp_timer_step(m1, op1, tick),
            }
        },
    }
}

/// Whether a reported UDP progress is an outcome.
pub open spec fn udp_progress_is(r: AsyncUdpProgress, o: AsyncOutcome) -> bool {
    match r {
        AsyncUdpProgress::Idle => o == AsyncOutcome::Idle,
        AsyncUdpProgress::Pending => o == AsyncOutcome::Pending,
        AsyncUdpProgress::Failed => o == AsyncOutcome::Failed,
        AsyncUdpProgress::Complete { bytes, len } => {
            &&& len <= ASYNC_BUFFER_CAPACITY
            &&& o == AsyncOutcome::Complete(bytes@.subrange(0, len as int))
            &&& forall|j: int| len <= j < ASYNC_BUFFER_CAPACITY ==> bytes@[j] == 0
        },
    }
}

impl NetworkStack {
    /// Sends an ARP request for `target`; see `spec_send_arp`.
    pub fn send_arp_request(&mut self, target: [u8; 4]) -> (r: bool)
        ensures
            final(self)@ == (StackModel { link: final(self)@.link, ..old(self)@ }),
            (final(self)@.link, r) == spec_send_arp(old(self)@.link, target@),
    {
        let mut frame: Vec<u8> = Vec::new();
        let broadcast: [u8; 6] = [0xff; 6];
        push_all(&mut frame, broadcast.as_slice());
        let mac = self.device.mac();
        push_all(&mut frame, mac.as_slice());
        let header: [u8; 10] = [8, 6, 0, 1, 8, 0, 6, 4, 0, 1];
        push_all(&mut frame, header.as_slice());
        push_all(&mut frame, mac.as_slice());
        push_all(&mut frame, self.address.as_slice());
        let zeros: [u8; 6] = [0; 6];
        push_all(&mut frame, zeros.as_slice());
        push_all(&mut frame, target.as_slice());
        assert(frame@ =~= arp_request_frame(self@.link.mac, self@.link.address, target@));
        self.device.transmit(frame.as_slice())
    }

    /// Sends one UDP datagram; see `spec_send_udp`.
    pub fn send_udp_raw(
        &mut self,
        mac: [u8; 6],
        source: [u8; 4],
        destination: [u8; 4],
        source_port: u16,
        destination_port: u16,
        payload: &[u8],
    ) -> (r: bool)
        ensures
            final(self)@ == (StackModel { link: final(self)@.link, ..old(self)@ }),
            (final(self)@.link, r) == spec_send_udp(
                old(self)@.link,
                mac@,
                source@,
                destination@,
                source_port,
                destination_port,
                payload@,
            ),
    {
        if payload.len() > TCP_SEGMENT_CAPACITY - 8 {
            return false;
        }
        let mut udp: Vec<u8> = Vec::new();
        push_be16(&mut udp, source_port);
        push_be16(&mut udp, destination_port);
        push_be16(&mut udp, (8 + payload.len()) as u16);
        udp.push(0);
        udp.push(0);
        push_all(&mut udp, payload);
        assert(udp@ =~= udp_datagram(source_port, destination_port, payload@));
        self.send_ipv4_from(mac, source, destination, 17, udp.as_slice())
    }

    /// The first hop towards `destination`; see `next_hop`.
    pub fn route_next_hop(&self, destination: [u8; 4]) -> (r: [u8; 4])
        ensures
            r@ == next_hop(self@, destination@),
    {
        if destination[0] & self.subnet[0] == self.address[0] & self.subnet[0] && destination[1] & self.subnet[1]
            == self.address[1] & self.subnet[1] && destination[2] & self.subnet[2] == self.address[2]
            & self.subnet[2] && destination[3] & self.subnet[3] == self.address[3] & self.subnet[3] {
            destination
        } else {
            self.gateway
        }
    }

    /// Takes the next ephemeral port.
    pub fn allocate_port(&mut self) -> (r: u16)
        ensures
            r == old(self)@.next_port,
            final(self)@ == (StackModel { next_port: port_after(old(self)@.next_port), ..old(self)@ }),
    {
        let port = self.next_port;
        self.next_port = if self.next_port == u16::MAX || self.next_port + 1 < 49152 { 49152 } else { self.next_port + 1 };
        port
    }

    /// Whether a passive handshake or stream is under way.
    pub fn passive_service_active(&self) -> (r: bool)
        requires
            stack_wf(self@),
        ensures
            r == passive_active(self@),
    {
        if self.tcp_passive_active() {
            return true;
        }
        let mut i: usize = 0;
        while i < self.passive_streams.len()
            invariant
                i <= self.passive_streams@.len(),
                self@.streams.len() == self.passive_streams@.len(),
                !(exists|j: int| 0 <= j < self@.handshakes.len() && self@.handshakes[j] is Some),
                forall|j: int| 0 <= j < i ==> self@.streams[j] is None,
            decreases self.passive_streams@.len() - i,
        {
            assert(self@.streams[i as int] == crate::network_stack::slot_model(self.passive_streams@[i as int]));
            if self.passive_streams[i].is_some() {
                return true;
            }
            i += 1;
        }
        false
    }

    /// Starts the stack's UDP request; see `spec_start_udp`.
    pub fn start_udp_async(&mut self, target: [u8; 4], port: u16, request: &[u8], tick: u64) -> (r: bool)
        requires
            stack_wf(old(self)@),
        ensures
            stack_wf(final(self)@),
            (final(self)@, r) == spec_start_udp(old(self)@, target@, port, request@, tick),
    {
        let zero = target[0] == 0 && target[1] == 0 && target[2] == 0 && target[3] == 0;
        assert(zero == (target@ == seq![0u8, 0u8, 0u8, 0u8])) by {
            if zero {
                assert(target@ =~= seq![0u8, 0u8, 0u8, 0u8]);
            }
            if target@ == seq![0u8, 0u8, 0u8, 0u8] {
                assert(target@[0] == 0 && target@[1] == 0 && target@[2] == 0 && target@[3] == 0);
            }
        }
        if !self.available || self.async_udp.is_some() || self.async_tcp.is_some() || self.passive_service_active()
            || zero || port == 0 || request.len() == 0 || request.len() > ASYNC_BUFFER_CAPACITY {
            return false;
        }
        let next_hop = self.route_next_hop(target);
        let local_port = self.allocate_port();
        self.async_udp = Some(
            AsyncUdpOperation {
                target,
                next_hop,
                remote_port: port,
                local_port,
                request: bytes_of(request),
                phase: AsyncUdpPhase::Resolve,
                attempts: 0,
                deadline: tick,
            },
        );
        true
    }

    /// The payload of the reply to `op`; see `udp_reply`.
    fn udp_reply_payload(&self, frame: &[u8], op: &AsyncUdpOperation) -> (r: Option<Vec<u8>>)
        ensures
            match r {
                Some(p) => udp_reply(self@.link, frame@, op@) == Some(p@),
                None => udp_reply(self@.link, frame@, op@) is None,
            },
    {
        reveal(udp_reply);
        let ip = match parse_ipv4_frame(frame) {
            Some(ip) => ip,
            None => return None,
        };
        if ip.protocol != 17 || !same_address(ip.source, op.target) || !same_address(ip.destination, self.address)
            || !transport_checksum_valid(ip.source, ip.destination, ip.protocol, ip.payload) {
            return None;
        }
        let udp = match parse_udp(ip.payload) {
            Some(u) => u,
            None => return None,
        };
        if udp.source_port == op.remote_port && udp.destination_port == op.local_port {
            Some(bytes_of(udp.payload))
        } else {
            None
        }
    }

    /// Sends `op`'s request to `mac`; see `send_request`.
    fn send_udp_request(&mut self, op: &AsyncUdpOperation, mac: [u8; 6]) -> (r: bool)
        ensures
            final(self)@ == (StackModel { link: final(self)@.link, ..old(self)@ }),
            (final(self)@.link, r) == send_request(old(self)@.link, op@, mac@),
    {
        let address = self.address;
        self.send_udp_raw(mac, address, op.target, op.local_port, op.remote_port, op.request.as_slice())
    }

    /// One tick of the stack's UDP request; see `spec_poll_udp`.
    #[verifier::rlimit(60)]
    #[verifier::spinoff_prover]
    pub fn poll_udp_async(&mut self, tick: u64) -> (r: AsyncUdpProgress)
        requires
            stack_wf(old(self)@),
        ensures
            stack_wf(final(self)@),
            final(self)@ == spec_poll_udp(old(self)@, tick).0,
            udp_progress_is(r, spec_poll_udp(old(self)@, tick).1),
    {
        let mut op = match self.async_udp.take() {
            Some(op) => op,
            None => return AsyncUdpProgress::Idle,
        };
        let frame = self.receive_frame();
        if let Some(f) = frame {
            match op.phase {
                AsyncUdpPhase::Resolve => {
                    if let Some(mac) = parse_arp_reply(f.as_slice(), op.next_hop, self.address) {
                        if !self.send_udp_request(&op, mac) {
                            return AsyncUdpProgress::Failed;
                        }
                        op.phase = AsyncUdpPhase::Response { mac };
                        op.attempts = 1;
                        op.deadline = tick.saturating_add(ASYNC_RETRY_TICKS);
                    }
                },
                AsyncUdpPhase::Response { .. } => {
                    if let Some(payload) = self.udp_reply_payload(f.as_slice(), &op) {
                        let len = if payload.len() <= ASYNC_BUFFER_CAPACITY { payload.len() } else { ASYNC_BUFFER_CAPACITY };
                        let kept = crate::network_stack::slice_prefix(&payload, len);
                        assert(kept@ == cut(payload@));
                        let bytes = padded(&kept);
                        return AsyncUdpProgress::Complete { bytes, len };
                    }
                },
            }
        }
        if tick >= op.deadline {
            if op.attempts >= RETRIES {
                return AsyncUdpProgress::Failed;
            }
            let sent = match op.phase {
                AsyncUdpPhase::Resolve => self.send_arp_request(op.next_hop),
                AsyncUdpPhase::Response { mac } => self.send_udp_request(&op, mac),
            };
            if !sent {
                return AsyncUdpProgress::Failed;
            }
            op.attempts = op.attempts + 1;
            op.deadline = tick.saturating_add(ASYNC_RETRY_TICKS);
        }
        self.async_udp = Some(op);
        AsyncUdpProgress::Pending
    }
}

/// The initial sequence number of the stack's own TCP exchange.
pub open spec fn async_initial_seq(local_port: u16, len: u32) -> u32 {
    0x5060_7080u32 ^ (local_port as u32) ^ ((len << 16u32) | (len >> 16u32))
}

/// Starts the stack's TCP exchange: refused as a UDP request is.
pub open spec fn spec_start_tcp(m: StackModel, target: Seq<u8>, port: u16, request: Seq<u8>, tick: u64) -> (StackModel, bool) {
    if !m.available || m.async_udp is Some || m.async_tcp is Some || passive_active(m) || target == seq![
        0u8,
        0u8,
        0u8,
        0u8,
    ] || port == 0 || request.len() == 0 || request.len() > ASYNC_BUFFER_CAPACITY {
        (m, false)
    } else {
        (
            StackModel {
                next_port: port_after(m.next_port),
                async_tcp: Some(
                    AsyncTcpModel {
                        target,
                        next_hop: next_hop(m, target),
                        remote_port: port,
                        local_port: m.next_port,
                        initial_seq: async_initial_seq(m.next_port, request.len() as u32),
                        request,
                        phase: TcpPhaseModel::Resolve,
                        attempts: 0,
                        deadline: tick,
                    },
                ),
                ..m
            },
            true,
        )
    }
}

/// A TCP segment of the exchange's peer, its payload cut to a segment.
pub ghost struct TcpReply {
    pub sequence: u32,
    pub acknowledgment: u32,
    pub flags: u8,
    pub payload: Seq<u8>,
}

/// The segment from the exchange's peer in `frame`: from the target to the
/// stack's address with a valid checksum, between the exchange's ports.
#[verifier::opaque]
pub open spec fn tcp_reply(l: LinkModel, frame: Seq<u8>, op: AsyncTcpModel) -> Option<TcpReply> {
    match spec_parse_ipv4(frame) {
        None => None,
        Some(ip) => if ip.protocol != 6 || ip.source != op.target || ip.destination != l.address
            || !spec_transport_checksum_valid(ip.source, ip.destination, 6, ip.payload) {
            None
        } else {
            match spec_parse_tcp(ip.payload) {
                Some(t) => if t.source_port == op.remote_port && t.destination_port == op.local_port {
                    Some(
                        TcpReply {
                            sequence: t.sequence,
                            acknowledgment: t.acknowledgment,
                            flags: t.flags,
                            payload: if t.payload.len() <= TCP_SEGMENT_CAPACITY {
                                t.payload
                            } else {
                                t.payload.subrange(0, TCP_SEGMENT_CAPACITY as int)
                            },
                        },
                    )
                } else {
                    None
                },
                None => None,
            }
        },
    }
}

/// A segment of the exchange to `mac`.
pub open spec fn exchange_send(l: LinkModel, op: AsyncTcpModel, mac: Seq<u8>, sequence: u32, acknowledgment: u32, flags: u8, payload: Seq<u8>) -> (LinkModel, bool) {
    spec_send_tcp(
        l,
        mac,
        op.target,
        op.local_port,
        op.remote_port,
        sequence,
        acknowledgment,
        flags,
        payload,
        PASSIVE_TCP_RECEIVE_CAPACITY as u16,
    )
}

pub open spec fn failed(m: StackModel, l: LinkModel, op: AsyncTcpModel) -> (StackModel, AsyncTcpModel, Option<AsyncOutcome>) {
    (StackModel { link: l, ..m }, op, Some(AsyncOutcome::Failed))
}

/// The SYN-ACK of the exchange's peer: answered with an acknowledgment and
/// the request.
pub open spec fn tcp_syn_step(m: StackModel, op: AsyncTcpModel, mac: Seq<u8>, p: TcpReply, tick: u64) -> (StackModel, AsyncTcpModel, Option<AsyncOutcome>) {
    if has_flag(p.flags, 0x04) {
        (m, op, Some(AsyncOutcome::Failed))
    } else if p.flags & 0x12 == 0x12 && p.acknowledgment == wrap_add(op.initial_seq, 1) {
        let request_seq = wrap_add(op.initial_seq, 1);
        let remote_seq = wrap_add(p.sequence, 1);
        let (l1, acked) = exchange_send(m.link, op, mac, request_seq, remote_seq, 0x10, Seq::empty());
        if !acked {
            failed(m, l1, op)
        } else {
            let (l2, sent) = exchange_send(l1, op, mac, request_seq, remote_seq, 0x18, op.request);
            if !sent {
                failed(m, l2, op)
            } else {
                (
                    StackModel { link: l2, ..m },
                    AsyncTcpModel {
                        phase: TcpPhaseModel::Response {
                            mac,
                            local_seq: wrap_add(request_seq, op.request.len() as int),
                            remote_seq,
                            bytes: Seq::empty(),
                        },
                        attempts: 1,
                        deadline: sat_add(tick, ASYNC_RETRY_TICKS as int),
                        ..op
                    },
                    None,
                )
            }
        }
    } else {
        (m, op, None)
    }
}

/// A segment of the response: a reset fails the exchange; an
/// acknowledgment of anything but the request is ignored; a segment at
/// another sequence is answered with the current acknowledgment; otherwise
/// its bytes are taken and acknowledged, and a FIN completes the exchange
/// once bytes arrived, answered with the stack's own FIN.
pub open spec fn tcp_response_step(
    m: StackModel,
    op: AsyncTcpModel,
    mac: Seq<u8>,
    local_seq: u32,
    remote_seq: u32,
    bytes: Seq<u8>,
    p: TcpReply,
    tick: u64,
) -> (StackModel, AsyncTcpModel, Option<AsyncOutcome>) {
    if has_flag(p.flags, 0x04) {
        (m, op, Some(AsyncOutcome::Failed))
    } else if has_flag(p.flags, 0x10) && p.acknowledgment != local_seq {
        (m, op, None)
    } else if p.sequence != remote_seq {
        let (l, sent) = exchange_send(m.link, op, mac, local_seq, remote_seq, 0x10, Seq::empty());
        if !sent {
            failed(m, l, op)
        } else {
            (StackModel { link: l, ..m }, op, None)
        }
    } else if bytes.len() + p.payload.len() > ASYNC_BUFFER_CAPACITY {
        (m, op, Some(AsyncOutcome::Failed))
    } else {
        let fin = has_flag(p.flags, 0x01);
        let bytes1 = bytes + p.payload;
        let remote1 = wrap_add(remote_seq, p.payload.len() + if fin { 1int } else { 0int });
        let (l1, acked, deadline) = if p.payload.len() != 0 || fin {
            let (l, sent) = exchange_send(m.link, op, mac, local_seq, remote1, 0x10, Seq::empty());
            (l, sent, sat_add(tick, ASYNC_RETRY_TICKS as int))
        } else {
            (m.link, true, op.deadline)
        };
        if !acked {
            failed(m, l1, op)
        } else if fin {
            if bytes1.len() == 0 {
                failed(m, l1, op)
            } else {
                let (l2, closed) = exchange_send(l1, op, mac, local_seq, remote1, 0x11, Seq::empty());
                if !closed {
                    failed(m, l2, op)
                } else {
                    (StackModel { link: l2, ..m }, op, Some(AsyncOutcome::Complete(bytes1)))
                }
            }
        } else {
            (
                StackModel { link: l1, ..m },
                AsyncTcpModel {
                    phase: TcpPhaseModel::Response { mac, local_seq, remote_seq: remote1, bytes: bytes1 },
                    deadline,
                    ..op
                },
                None,
            )
        }
    }
}

/// A received frame in the exchange's current phase.
pub open spec fn tcp_receive_step(m: StackModel, op: AsyncTcpModel, frame: Seq<u8>, tick: u64) -> (StackModel, AsyncTcpModel, Option<AsyncOutcome>) {
    match op.phase {
        TcpPhaseModel::Resolve => match spec_parse_arp_reply(frame, op.next_hop, m.link.address) {
            None => (m, op, None),
            Some(mac) => {
                let (l, sent) = exchange_send(m.link, op, mac, op.initial_seq, 0, 0x02, Seq::empty());
                if !sent {
                    failed(m, l, op)
                } else {
                    (
                        StackModel { link: l, ..m },
                        AsyncTcpModel {
                            phase: TcpPhaseModel::Syn(mac),
                            attempts: 1,
                            deadline: sat_add(tick, ASYNC_RETRY_TICKS as int),
                            ..op
                        },
                        None,
                    )
                }
            },
        },
        TcpPhaseModel::Syn(mac) => match tcp_reply(m.link, frame, op) {
            None => (m, op, None),
            Some(p) => tcp_syn_step(m, op, mac, p, tick),
        },
        TcpPhaseModel::Response { mac, local_seq, remote_seq, bytes } => match tcp_reply(m.link, frame, op) {
            None => (m, op, None),
            Some(p) => tcp_response_step(m, op, mac, local_seq, remote_seq, bytes, p, tick),
        },
    }
}

/// When the exchange's timer expires, what it waits on is sent again: the
/// ARP request, the SYN, the request while nothing came back, else the
/// acknowledgment; up to `RETRIES` times.
pub open spec fn tcp_timer_step(m: StackModel, op: AsyncTcpModel, tick: u64) -> (StackModel, AsyncOutcome) {
    if tick >= op.deadline {
        if op.attempts >= RETRIES {
            (m, AsyncOutcome::Failed)
        } else {
            let (l, sent) = match op.phase {
                TcpPhaseModel::Resolve => spec_send_arp(m.link, op.next_hop),
                TcpPhaseModel::Syn(mac) => exchange_send(m.link, op, mac, op.initial_seq, 0, 0x02, Seq::empty()),
                TcpPhaseModel::Response { mac, local_seq, remote_seq, bytes } => if bytes.len() == 0 {
                    exchange_send(
                        m.link,
                        op,
                        mac,
                        wrap_add(local_seq, -(op.request.len() as int)),
                        remote_seq,
                        0x18,
                        op.request,
                    )
                } else {
                    exchange_send(m.link, op, mac, local_seq, remote_seq, 0x10, Seq::empty())
                },
            };
            if !sent {
                (StackModel { link: l, ..m }, AsyncOutcome::Failed)
            } else {
                (
                    StackModel {
                        link: l,
                        async_tcp: Some(
                            AsyncTcpModel {
                                attempts: (op.attempts + 1) as usize,
                                deadline: sat_add(tick, ASYNC_RETRY_TICKS as int),
                                ..op
                            },
                        ),
                        ..m
                    },
                    AsyncOutcome::Pending,
                )
            }
        }
    } else {
        (StackModel { async_tcp: Some(op), ..m }, AsyncOutcome::Pending)
    }
}

/// One tick of the stack's TCP exchange: at most one frame is taken, then
/// the retry timer runs; a finished or failed exchange is dropped.
pub open spec fn spec_poll_tcp(m: StackModel, tick: u64) -> (StackModel, AsyncOutcome) {
    match m.async_tcp {
        None => (m, AsyncOutcome::Idle),
        Some(op) => {
            let (m0, f) = rx_next(StackModel { async_tcp: None, ..m }, PASSIVE_TCP_RX_POLLS_PER_TICK as nat);
            let (m1, op1, outcome) = match f {
                None => (m0, op, None),
                Some(frame) => tcp_receive_step(m0, op, frame, tick),
            };
            match outcome {
                Some(o) => (m1, o),
                None => tcp_timer_step(m1, op1, tick),
            }
        },
    }
}

/// Whether a reported TCP progress is an outcome.
pub open spec fn tcp_progress_is(r: AsyncTcpProgress, o: AsyncOutcome) -> bool {
    match r {
        AsyncTcpProgress::Idle => o == AsyncOutcome::Idle,
        AsyncTcpProgress::Pending => o == AsyncOutcome::Pending,
        AsyncTcpProgress::Failed => o == AsyncOutcome::Failed,
        AsyncTcpProgress::Complete { bytes, len } => {
            &&& len <= ASYNC_BUFFER_CAPACITY
            &&& o == AsyncOutcome::Complete(bytes@.subrange(0, len as int))
            &&& forall|j: int| len <= j < ASYNC_BUFFER_CAPACITY ==> bytes@[j] == 0
        },
    }
}

/// The request fits a buffer and the response collected so far too.
pub open spec fn exchange_wf(op: AsyncTcpModel) -> bool {
    &&& op.request.len() <= ASYNC_BUFFER_CAPACITY
    &&& (op.phase matches TcpPhaseModel::Response { bytes, .. } ==> bytes.len() <= ASYNC_BUFFER_CAPACITY)
}

/// The segment a TCP reply carries, as plain values.
pub struct TcpOwned {
    pub sequence: u32,
    pub acknowledgment: u32,
    pub flags: u8,
    pub payload: Vec<u8>,
}

impl TcpOwned {
    pub open spec fn view(&self) -> TcpReply {
        TcpReply { sequence: self.sequence, acknowledgment: self.acknowledgment, flags: self.flags, payload: self.payload@ }
    }
}

impl NetworkStack {
    /// Starts the stack's TCP exchange; see `spec_start_tcp`.
    pub fn start_tcp_async(&mut self, target: [u8; 4], port: u16, request: &[u8], tick: u64) -> (r: bool)
        requires
            stack_wf(old(self)@),
        ensures
            stack_wf(final(self)@),
            (final(self)@, r) == spec_start_tcp(old(self)@, target@, port, request@, tick),
    {
        let zero = target[0] == 0 && target[1] == 0 && target[2] == 0 && target[3] == 0;
        assert(zero == (target@ == seq![0u8, 0u8, 0u8, 0u8])) by {
            if zero {
                assert(target@ =~= seq![0u8, 0u8, 0u8, 0u8]);
            }
            if target@ == seq![0u8, 0u8, 0u8, 0u8] {
                assert(target@[0] == 0 && target@[1] == 0 && target@[2] == 0 && target@[3] == 0);
            }
        }
        if !self.available || self.async_udp.is_some() || self.async_tcp.is_some() || self.passive_service_active()
            || zero || port == 0 || request.len() == 0 || request.len() > ASYNC_BUFFER_CAPACITY {
            return false;
        }
        let local_port = self.allocate_port();
        let next_hop = self.route_next_hop(target);
        let n = request.len() as u32;
        self.async_tcp = Some(
            AsyncTcpOperation {
                target,
                next_hop,
                remote_port: port,
                local_port,
                initial_seq: 0x5060_7080u32 ^ (local_port as u32) ^ ((n << 16u32) | (n >> 16u32)),
                request: bytes_of(request),
                phase: AsyncTcpPhase::Resolve,
                attempts: 0,
                deadline: tick,
            },
        );
        true
    }

    /// The segment from the exchange's peer in `frame`; see `tcp_reply`.
    fn decode_tcp_reply(&self, frame: &[u8], op: &AsyncTcpOperation) -> (r: Option<TcpOwned>)
        ensures
            match r {
                Some(p) => tcp_reply(self@.link, frame@, op@) == Some(p@),
                None => tcp_reply(self@.link, frame@, op@) is None,
            },
    {
        reveal(tcp_reply);
        let ip = match parse_ipv4_frame(frame) {
            Some(ip) => ip,
            None => return None,
        };
        if ip.protocol != 6 || !same_address(ip.source, op.target) || !same_address(ip.destination, self.address)
            || !transport_checksum_valid(ip.source, ip.destination, ip.protocol, ip.payload) {
            return None;
        }
        let tcp = match parse_tcp(ip.payload) {
            Some(t) => t,
            None => return None,
        };
        if tcp.source_port != op.remote_port || tcp.destination_port != op.local_port {
            return None;
        }
        let len = if tcp.payload.len() <= TCP_SEGMENT_CAPACITY { tcp.payload.len() } else { TCP_SEGMENT_CAPACITY };
        let payload = prefix_of(tcp.payload, len);
        assert(tcp.payload@.len() <= TCP_SEGMENT_CAPACITY ==> payload@ =~= tcp.payload@);
        Some(TcpOwned { sequence: tcp.sequence, acknowledgment: tcp.acknowledgment, flags: tcp.flags, payload })
    }

    /// The peer's answer to the exchange's SYN; see `tcp_syn_step`.
    fn exchange_syn_phase(&mut self, op: &mut AsyncTcpOperation, mac: [u8; 6], p: &TcpOwned, tick: u64) -> (r: Option<AsyncTcpProgress>)
        requires
            exchange_wf(old(op)@),
        ensures
            exchange_wf(final(op)@),
            final(self)@ == tcp_syn_step(old(self)@, old(op)@, mac@, p@, tick).0,
            match r {
                None => tcp_syn_step(old(self)@, old(op)@, mac@, p@, tick).2 is None
                    && final(op)@ == tcp_syn_step(old(self)@, old(op)@, mac@, p@, tick).1,
                Some(x) => tcp_syn_step(old(self)@, old(op)@, mac@, p@, tick).2 matches Some(o) && tcp_progress_is(x, o),
            },
    {
        if p.flags & 0x04 != 0 {
            return Some(AsyncTcpProgress::Failed);
        }
        if p.flags & 0x12 == 0x12 && p.acknowledgment == op.initial_seq.wrapping_add(1) {
            let request_seq = op.initial_seq.wrapping_add(1);
            let remote_seq = p.sequence.wrapping_add(1);
            if !self.send_exchange(op, mac, request_seq, remote_seq, 0x10, no_payload()) {
                return Some(AsyncTcpProgress::Failed);
            }
            let request = bytes_of(op.request.as_slice());
            if !self.send_exchange(op, mac, request_seq, remote_seq, 0x18, request.as_slice()) {
                return Some(AsyncTcpProgress::Failed);
            }
            op.phase = AsyncTcpPhase::Response {
                mac,
                local_seq: request_seq.wrapping_add(op.request.len() as u32),
                remote_seq,
                bytes: Vec::new(),
            };
            op.attempts = 1;
            op.deadline = tick.saturating_add(ASYNC_RETRY_TICKS);
        }
        None
    }

    /// A segment of the response; see `tcp_response_step`.
    #[verifier::rlimit(60)]
    #[verifier::spinoff_prover]
    fn exchange_response_phase(&mut self, op: &mut AsyncTcpOperation, p: &TcpOwned, tick: u64) -> (r: Option<AsyncTcpProgress>)
        requires
            exchange_wf(old(op)@),
            old(op)@.phase is Response,
        ensures
            exchange_wf(final(op)@),
            ({
                let (mac, local_seq, remote_seq, bytes) = match old(op)@.phase {
                    TcpPhaseModel::Response { mac, local_seq, remote_seq, bytes } => (mac, local_seq, remote_seq, bytes),
                    _ => (Seq::empty(), 0u32, 0u32, Seq::empty()),
                };
                let x = tcp_response_step(old(self)@, old(op)@, mac, local_seq, remote_seq, bytes, p@, tick);
                &&& final(self)@ == x.0
                &&& match r {
                    None => x.2 is None && final(op)@ == x.1,
                    Some(v) => x.2 matches Some(o) && tcp_progress_is(v, o),
                }
            }),
    {
        let (mac, local_seq, remote_seq, bytes) = match &op.phase {
            AsyncTcpPhase::Response { mac, local_seq, remote_seq, bytes } => (*mac, *local_seq, *remote_seq, bytes_of(bytes.as_slice())),
            _ => ([0u8; 6], 0u32, 0u32, Vec::new()),
        };
        if p.flags & 0x04 != 0 {
            return Some(AsyncTcpProgress::Failed);
        }
        if p.flags & 0x10 != 0 && p.acknowledgment != local_seq {
            return None;
        }
        if p.sequence != remote_seq {
            if !self.send_exchange(op, mac, local_seq, remote_seq, 0x10, no_payload()) {
                return Some(AsyncTcpProgress::Failed);
            }
            return None;
        }
        if p.payload.len() > ASYNC_BUFFER_CAPACITY || bytes.len() + p.payload.len() > ASYNC_BUFFER_CAPACITY {
            return Some(AsyncTcpProgress::Failed);
        }
        let fin = p.flags & 0x01 != 0;
        let mut bytes1 = bytes;
        push_all(&mut bytes1, p.payload.as_slice());
        let extra: u32 = if fin { 1 } else { 0 };
        let remote1 = remote_seq.wrapping_add(p.payload.len() as u32).wrapping_add(extra);
        assert(remote1 == wrap_add(remote_seq, p.payload@.len() + if fin { 1int } else { 0int }));
        let mut deadline = op.deadline;
        if p.payload.len() != 0 || fin {
            if !self.send_exchange(op, mac, local_seq, remote1, 0x10, no_payload()) {
                return Some(AsyncTcpProgress::Failed);
            }
            deadline = tick.saturating_add(ASYNC_RETRY_TICKS);
        }
        if fin {
            if bytes1.len() == 0 {
                return Some(AsyncTcpProgress::Failed);
            }
            if !self.send_exchange(op, mac, local_seq, remote1, 0x11, no_payload()) {
                return Some(AsyncTcpProgress::Failed);
            }
            let len = bytes1.len();
            let padded_bytes = padded(&bytes1);
            return Some(AsyncTcpProgress::Complete { bytes: padded_bytes, len });
        }
        op.phase = AsyncTcpPhase::Response { mac, local_seq, remote_seq: remote1, bytes: bytes1 };
        op.deadline = deadline;
        None
    }

    /// A received frame in the exchange's phase; see `tcp_receive_step`.
    fn exchange_receive(&mut self, op: &mut AsyncTcpOperation, frame: &[u8], tick: u64) -> (r: Option<AsyncTcpProgress>)
        requires
            exchange_wf(old(op)@),
        ensures
            exchange_wf(final(op)@),
            final(self)@ == tcp_receive_step(old(self)@, old(op)@, frame@, tick).0,
            match r {
                None => tcp_receive_step(old(self)@, old(op)@, frame@, tick).2 is None
                    && final(op)@ == tcp_receive_step(old(self)@, old(op)@, frame@, tick).1,
                Some(x) => tcp_receive_step(old(self)@, old(op)@, frame@, tick).2 matches Some(o) && tcp_progress_is(x, o),
            },
    {
        let resolve = match op.phase {
            AsyncTcpPhase::Resolve => true,
            _ => false,
        };
        if resolve {
            if let Some(mac) = parse_arp_reply(frame, op.next_hop, self.address) {
                let initial = op.initial_seq;
                if !self.send_exchange(op, mac, initial, 0, 0x02, no_payload()) {
                    return Some(AsyncTcpProgress::Failed);
                }
                op.phase = AsyncTcpPhase::Syn { mac };
                op.attempts = 1;
                op.deadline = tick.saturating_add(ASYNC_RETRY_TICKS);
            }
            return None;
        }
        let reply = match self.decode_tcp_reply(frame, op) {
            Some(p) => p,
            None => return None,
        };
        let syn_mac = match op.phase {
            AsyncTcpPhase::Syn { mac } => Some(mac),
            _ => None,
        };
        match syn_mac {
            Some(mac) => self.exchange_syn_phase(op, mac, &reply, tick),
            None => self.exchange_response_phase(op, &reply, tick),
        }
    }

    /// Runs the exchange's retry timer; see `tcp_timer_step`.
    fn exchange_timer(&mut self, op: AsyncTcpOperation, tick: u64) -> (r: AsyncTcpProgress)
        requires
            old(self).async_tcp is None,
            exchange_wf(op@),
        ensures
            final(self)@ == tcp_timer_step(old(self)@, op@, tick).0,
            tcp_progress_is(r, tcp_timer_step(old(self)@, op@, tick).1),
    {
        let mut op = op;
        if tick >= op.deadline {
            if op.attempts >= RETRIES {
                return AsyncTcpProgress::Failed;
            }
            let sent = match &op.phase {
                AsyncTcpPhase::Resolve => self.send_arp_request(op.next_hop),
                AsyncTcpPhase::Syn { mac } => {
                    let m = *mac;
                    let initial = op.initial_seq;
                    self.send_exchange(&op, m, initial, 0, 0x02, no_payload())
                },
                AsyncTcpPhase::Response { mac, local_seq, remote_seq, bytes } => {
                    let m = *mac;
                    let (l, r) = (*local_seq, *remote_seq);
                    if bytes.len() == 0 {
                        let request = bytes_of(op.request.as_slice());
                        let start = l.wrapping_sub(op.request.len() as u32);
                        assert(start == wrap_add(l, -(op.request@.len() as int)));
                        self.send_exchange(&op, m, start, r, 0x18, request.as_slice())
                    } else {
                        self.send_exchange(&op, m, l, r, 0x10, no_payload())
                    }
                },
            };
            if !sent {
                return AsyncTcpProgress::Failed;
            }
            op.attempts = op.attempts + 1;
            op.deadline = tick.saturating_add(ASYNC_RETRY_TICKS);
        }
        self.async_tcp = Some(op);
        AsyncTcpProgress::Pending
    }

    /// One tick of the stack's TCP exchange; see `spec_poll_tcp`.
    pub fn poll_tcp_async(&mut self, tick: u64) -> (r: AsyncTcpProgress)
        requires
            stack_wf(old(self)@),
            old(self)@.async_tcp matches Some(op) ==> exchange_wf(op),
        ensures
            stack_wf(final(self)@),
            final(self)@.async_tcp matches Some(op) ==> exchange_wf(op),
            final(self)@ == spec_poll_tcp(old(self)@, tick).0,
            tcp_progress_is(r, spec_poll_tcp(old(self)@, tick).1),
    {
        let mut op = match self.async_tcp.take() {
            Some(op) => op,
            None => return AsyncTcpProgress::Idle,
        };
        let frame = self.receive_frame();
        if let Some(f) = frame {
            if let Some(done) = self.exchange_receive(&mut op, f.as_slice(), tick) {
                return done;
            }
        }
        self.exchange_timer(op, tick)
    }

    /// One segment of the exchange; see `exchange_send`.
    fn send_exchange(
        &mut self,
        op: &AsyncTcpOperation,
        mac: [u8; 6],
        sequence: u32,
        acknowledgment: u32,
        flags: u8,
        payload: &[u8],
    ) -> (r: bool)
        ensures
            final(self)@ == (StackModel { link: final(self)@.link, ..old(self)@ }),
            (final(self)@.link, r) == exchange_send(old(self)@.link, op@, mac@, sequence, acknowledgment, flags, payload@),
    {
        self.send_tcp(mac, op.target, op.local_port, op.remote_port, sequence, acknowledgment, flags, payload).is_some()
    }
}

} // verus!
