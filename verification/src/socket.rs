//! Per-process socket handles: bounded byte queues, listener backlogs and
//! the bookkeeping of transport requests in flight.
use vstd::prelude::*;

verus! {

pub const SOCKET_CAPACITY: usize = 4;
pub const SOCKET_BUFFER_CAPACITY: usize = 128;

pub const SOCKET_READY_READABLE: u64 = 1;
pub const SOCKET_READY_WRITABLE: u64 = 2;
pub const SOCKET_READY_CONNECTED: u64 = 4;
pub const SOCKET_READY_CLOSED: u64 = 8;
pub const SOCKET_READY_ERROR: u64 = 16;
pub const SOCKET_READY_ACCEPT: u64 = 32;
pub const SOCKET_LISTENER_BACKLOG_CAPACITY: usize = 2;
pub const SOCKET_LISTENER_PORT_MIN: u16 = 1024;

/// The tag in the top byte of every socket handle.
pub const SOCKET_HANDLE_TAG: u64 = 0xe700_0000_0000_0000;
pub const SOCKET_GENERATION_MAX: u64 = 65535;

#[derive(Clone, Copy, Debug, PartialEq, Eq, Structural)]
pub enum SocketProtocol {
    Udp,
    TcpStream,
}

impl SocketProtocol {
    pub fn from_raw(value: u64) -> (r: Option<SocketProtocol>)
        ensures
            r == (if value == 1 {
                Some(SocketProtocol::Udp)
            } else if value == 2 {
                Some(SocketProtocol::TcpStream)
            } else {
                None
            }),
    {
        if value == 1 {
            Some(SocketProtocol::Udp)
        } else if value == 2 {
            Some(SocketProtocol::TcpStream)
        } else {
            None
        }
    }
}

#[derive(Clone, Copy, Debug, PartialEq, Eq, Structural)]
pub enum SocketState {
    Open,
    Connecting,
    Established,
    ReadClosed,
    WriteClosed,
    Closed,
    Failed,
    Bound,
    Listening,
}

#[derive(Clone, Copy, Debug, PartialEq, Eq, Structural)]
pub struct SocketOwner {
    pub slot: u8,
    pub incarnation: u64,
}

#[derive(Clone, Copy, Debug, PartialEq, Eq, Structural)]
pub struct SocketStatus {
    pub protocol: SocketProtocol,
    pub state: SocketState,
    pub readiness: u64,
    pub queued_send: usize,
    pub queued_receive: usize,
}

#[derive(Clone, Copy, Debug, PartialEq, Eq, Structural)]
pub enum SocketError {
    InvalidHandle,
    InvalidState,
    WouldBlock,
    Capacity,
    Unavailable,
}

#[derive(Clone, Copy, Debug, PartialEq, Eq)]
pub struct TcpServerPeer {
    pub target: u32,
    pub remote_port: u16,
    pub local_port: u16,
    pub remote_sequence: u32,
    pub local_sequence: u32,
    pub source_mac: [u8; 6],
}

pub fn peer_eq(a: &TcpServerPeer, b: &TcpServerPeer) -> (r: bool)
    ensures
        r == (*a == *b),
{
    let same = a.target == b.target && a.remote_port == b.remote_port && a.local_port == b.local_port
        && a.remote_sequence == b.remote_sequence && a.local_sequence == b.local_sequence
        && crate::strings::bytes_equal(a.source_mac.as_slice(), b.source_mac.as_slice());
    proof {
        if same {
            assert(a.source_mac@ =~= b.source_mac@);
            vstd::array::axiom_array_ext_equal(a.source_mac, b.source_mac);
        }
    }
    same
}

fn peer_is(p: &Option<TcpServerPeer>, peer: &TcpServerPeer) -> (r: bool)
    ensures
        r == (*p == Some(*peer)),
{
    match p {
        Some(q) => peer_eq(q, peer),
        None => false,
    }
}

/// One socket as plain values.
pub ghost struct EntryModel {
    pub handle: u64,
    pub generation: u64,
    pub owner: SocketOwner,
    pub protocol: SocketProtocol,
    pub state: SocketState,
    pub target: u32,
    pub port: u16,
    pub local_port: u16,
    pub backlog_limit: usize,
    pub backlog: Seq<TcpServerPeer>,
    pub server_peer: Option<TcpServerPeer>,
    pub send: Seq<u8>,
    pub in_flight_request: u64,
    pub in_flight_send: usize,
    pub receive: Seq<u8>,
}

/// A socket set as plain values: one optional socket per slot and the
/// generation the next socket gets.
pub ghost struct SocketsModel {
    pub entries: Seq<Option<EntryModel>>,
    pub next_generation: u64,
}

/// The handle of the socket of `owner` with `generation` in `slot`: a tag,
/// four bits of the owner's slot, 28 bits of its incarnation, the
/// generation, and the slot plus one.
pub open spec fn spec_socket_handle(owner: SocketOwner, generation: u64, slot: int) -> int {
    SOCKET_HANDLE_TAG + (owner.slot % 16) * 0x10_0000_0000_0000 + (owner.incarnation % 0x1000_0000)
        * 0x100_0000 + generation * 256 + slot + 1
}

/// The slot a handle names, if it carries the tag and a slot in range.
pub open spec fn spec_socket_slot(handle: u64) -> Option<int> {
    if handle / 0x100_0000_0000_0000 != 0xe7 || handle % 256 == 0 || handle % 256 > SOCKET_CAPACITY {
        None
    } else {
        Some(handle % 256 - 1)
    }
}

/// The slot of the live socket that `handle` names for `owner`.
pub open spec fn find(m: SocketsModel, owner: SocketOwner, handle: u64) -> Option<int> {
    match spec_socket_slot(handle) {
        None => None,
        Some(s) => if s >= m.entries.len() || m.entries[s] is None {
            None
        } else {
            let e = m.entries[s]->0;
            if e.handle != handle || e.owner != owner || spec_socket_handle(e.owner, e.generation, s)
                != handle {
                None
            } else {
                Some(s)
            }
        },
    }
}

/// An operation on the socket named by `handle`: an unknown handle fails
/// with nothing changed; otherwise `step` gives the socket's new value and
/// the result.
pub open spec fn by_handle<T>(
    before: SocketsModel,
    after: SocketsModel,
    owner: SocketOwner,
    handle: u64,
    r: Result<T, SocketError>,
    step: spec_fn(EntryModel) -> (EntryModel, Result<T, SocketError>),
) -> bool {
    match find(before, owner, handle) {
        None => r == Err::<T, SocketError>(SocketError::InvalidHandle) && after == before,
        Some(i) => r == step(before.entries[i]->0).1 && after == (SocketsModel {
            entries: before.entries.update(i, Some(step(before.entries[i]->0).0)),
            ..before
        }),
    }
}

/// A query of the socket named by `handle`; `false` for an unknown handle.
pub open spec fn holds_for(m: SocketsModel, owner: SocketOwner, handle: u64, p: spec_fn(EntryModel) -> bool) -> bool {
    match find(m, owner, handle) {
        None => false,
        Some(i) => p(m.entries[i]->0),
    }
}

/// The first socket, in slot order from `i`, that satisfies `p`.
pub open spec fn first_where(s: Seq<Option<EntryModel>>, p: spec_fn(EntryModel) -> bool, i: int) -> Option<EntryModel>
    decreases s.len() - i,
{
    if i >= s.len() {
        None
    } else if s[i] is Some && p(s[i]->0) {
        Some(s[i]->0)
    } else {
        first_where(s, p, i + 1)
    }
}

/// How many sockets from slot `i` on satisfy `p`.
pub open spec fn count_where(s: Seq<Option<EntryModel>>, p: spec_fn(EntryModel) -> bool, i: int) -> nat
    decreases s.len() - i,
{
    if i >= s.len() {
        0
    } else {
        (if s[i] is Some && p(s[i]->0) {
            1nat
        } else {
            0nat
        }) + count_where(s, p, i + 1)
    }
}

/// The first empty slot from `i` on.
pub open spec fn first_free(s: Seq<Option<EntryModel>>, i: int) -> Option<int>
    decreases s.len() - i,
{
    if i >= s.len() {
        None
    } else if s[i] is None {
        Some(i)
    } else {
        first_free(s, i + 1)
    }
}

pub open spec fn entry_wf(e: EntryModel, slot: int, next_generation: u64) -> bool {
    &&& 1 <= e.generation < next_generation
    &&& e.handle == spec_socket_handle(e.owner, e.generation, slot)
    &&& e.send.len() + e.in_flight_send <= SOCKET_BUFFER_CAPACITY
    &&& e.receive.len() <= SOCKET_BUFFER_CAPACITY
    &&& e.backlog.len() <= SOCKET_LISTENER_BACKLOG_CAPACITY
    &&& e.backlog_limit <= SOCKET_LISTENER_BACKLOG_CAPACITY
}

pub open spec fn sockets_wf(m: SocketsModel) -> bool {
    &&& m.entries.len() == SOCKET_CAPACITY
    &&& 1 <= m.next_generation <= SOCKET_GENERATION_MAX + 1
    &&& forall|i: int| 0 <= i < m.entries.len() && #[trigger] m.entries[i] is Some ==> entry_wf(
        m.entries[i]->0,
        i,
        m.next_generation,
    )
}

/// A socket just opened.
pub open spec fn fresh_entry(handle: u64, generation: u64, owner: SocketOwner, protocol: SocketProtocol) -> EntryModel {
    EntryModel {
        handle,
        generation,
        owner,
        protocol,
        state: SocketState::Open,
        target: 0,
        port: 0,
        local_port: 0,
        backlog_limit: 0,
        backlog: Seq::empty(),
        server_peer: None,
        send: Seq::empty(),
        in_flight_request: 0,
        in_flight_send: 0,
        receive: Seq::empty(),
    }
}

pub open spec fn spec_open(m: SocketsModel, owner: SocketOwner, protocol: SocketProtocol) -> (SocketsModel, Result<u64, SocketError>) {
    match first_free(m.entries, 0) {
        None => (m, Err(SocketError::Capacity)),
        Some(i) => if m.next_generation == 0 || m.next_generation > SOCKET_GENERATION_MAX {
            (m, Err(SocketError::Capacity))
        } else {
            let h = spec_socket_handle(owner, m.next_generation, i) as u64;
            (
                SocketsModel {
                    entries: m.entries.update(i, Some(fresh_entry(h, m.next_generation, owner, protocol))),
                    next_generation: (m.next_generation + 1) as u64,
                },
                Ok(h),
            )
        },
    }
}

/// Appending to a bounded queue: refused when empty or when it does not fit.
pub open spec fn queue_push(q: Seq<u8>, bytes: Seq<u8>) -> (Seq<u8>, Result<usize, SocketError>) {
    if bytes.len() == 0 || bytes.len() > SOCKET_BUFFER_CAPACITY - q.len() {
        (q, Err(SocketError::WouldBlock))
    } else {
        (q + bytes, Ok(bytes.len() as usize))
    }
}

/// Taking from the front of a queue into `output`: as much as fits, the
/// rest stays queued in order.
pub open spec fn queue_pop(q: Seq<u8>, output: Seq<u8>) -> (Seq<u8>, Seq<u8>, Result<usize, SocketError>) {
    if q.len() == 0 {
        (q, output, Err(SocketError::WouldBlock))
    } else {
        let n = if q.len() < output.len() {
            q.len()
        } else {
            output.len()
        };
        (
            q.subrange(n as int, q.len() as int),
            q.subrange(0, n as int) + output.subrange(n as int, output.len() as int),
            Ok(n as usize),
        )
    }
}

/// What `status` reports of a socket.
pub open spec fn status_of(e: EntryModel) -> SocketStatus {
    let queued_send = e.send.len() + e.in_flight_send;
    let readable = e.receive.len() != 0 || (e.state == SocketState::Listening && e.backlog.len() != 0);
    let accept = e.state == SocketState::Listening && e.backlog.len() != 0;
    let writable = queued_send < SOCKET_BUFFER_CAPACITY && !(e.state == SocketState::WriteClosed
        || e.state == SocketState::Closed || e.state == SocketState::Failed || e.state
        == SocketState::Bound || e.state == SocketState::Listening);
    let connected = e.state == SocketState::Established;
    let closed = e.state == SocketState::ReadClosed || e.state == SocketState::WriteClosed || e.state
        == SocketState::Closed || e.state == SocketState::Failed;
    let error = e.state == SocketState::Failed;
    SocketStatus {
        protocol: e.protocol,
        state: e.state,
        readiness: ((if readable {
            SOCKET_READY_READABLE
        } else {
            0
        }) + (if writable {
            SOCKET_READY_WRITABLE
        } else {
            0
        }) + (if connected {
            SOCKET_READY_CONNECTED
        } else {
            0
        }) + (if closed {
            SOCKET_READY_CLOSED
        } else {
            0
        }) + (if error {
            SOCKET_READY_ERROR
        } else {
            0
        }) + (if accept {
            SOCKET_READY_ACCEPT
        } else {
            0
        })) as u64,
        queued_send: queued_send as usize,
        queued_receive: e.receive.len() as usize,
    }
}


/// A read of the socket named by `handle`; an unknown handle fails.
pub open spec fn read_by_handle<T>(m: SocketsModel, owner: SocketOwner, handle: u64, f: spec_fn(EntryModel) -> Result<T, SocketError>) -> Result<T, SocketError> {
    match find(m, owner, handle) {
        None => Err(SocketError::InvalidHandle),
        Some(i) => f(m.entries[i]->0),
    }
}

/// What an operation that hands out the send queue leaves in `output`: the
/// queued bytes at its front on success, nothing changed otherwise.
pub open spec fn copied_out<T>(before: SocketsModel, owner: SocketOwner, handle: u64, r: Result<T, SocketError>, out_before: Seq<u8>, out_after: Seq<u8>) -> bool {
    if r is Ok && find(before, owner, handle) is Some {
        let q = before.entries[find(before, owner, handle)->0]->0.send;
        out_after == q + out_before.subrange(q.len() as int, 128)
    } else {
        out_after == out_before
    }
}

/// What an operation that pops a queue leaves in `output`.
pub open spec fn popped_out(before: SocketsModel, owner: SocketOwner, handle: u64, allowed: spec_fn(EntryModel) -> bool, send_side: bool, out_before: Seq<u8>, out_after: Seq<u8>) -> bool {
    match find(before, owner, handle) {
        None => out_after == out_before,
        Some(i) => {
            let e = before.entries[i]->0;
            if !allowed(e) {
                out_after == out_before
            } else {
                out_after == queue_pop(if send_side { e.send } else { e.receive }, out_before).1
            }
        },
    }
}

pub open spec fn connecting_or_established(st: SocketState) -> bool {
    st == SocketState::Connecting || st == SocketState::Established
}

pub open spec fn step_connect(e: EntryModel, target: u32, port: u16) -> (EntryModel, Result<(), SocketError>) {
    if target == 0 || port == 0 || e.state != SocketState::Open {
        (e, Err(SocketError::InvalidState))
    } else {
        (
            EntryModel {
                target,
                port,
                state: if e.protocol == SocketProtocol::Udp {
                    SocketState::Established
                } else {
                    SocketState::Connecting
                },
                ..e
            },
            Ok(()),
        )
    }
}

/// Only an open TCP socket binds, and only to a port from the listener range.
pub open spec fn bind_allowed(e: EntryModel, local_port: u16) -> bool {
    e.protocol == SocketProtocol::TcpStream && e.state == SocketState::Open && local_port
        >= SOCKET_LISTENER_PORT_MIN
}

pub open spec fn step_bind(e: EntryModel, local_port: u16) -> (EntryModel, Result<(), SocketError>) {
    if !bind_allowed(e, local_port) {
        (e, Err(SocketError::InvalidState))
    } else {
        (EntryModel { local_port, state: SocketState::Bound, ..e }, Ok(()))
    }
}

pub open spec fn step_listen(e: EntryModel, backlog: usize) -> (EntryModel, Result<(), SocketError>) {
    if e.protocol != SocketProtocol::TcpStream || e.state != SocketState::Bound || backlog == 0
        || backlog > SOCKET_LISTENER_BACKLOG_CAPACITY {
        (e, Err(SocketError::InvalidState))
    } else {
        (EntryModel { backlog_limit: backlog, state: SocketState::Listening, ..e }, Ok(()))
    }
}

pub open spec fn step_queue_incoming(e: EntryModel, peer: TcpServerPeer) -> (EntryModel, Result<(), SocketError>) {
    if e.state != SocketState::Listening || peer.target == 0 || peer.remote_port == 0
        || peer.local_port != e.local_port || e.backlog.len() >= e.backlog_limit {
        (e, Err(SocketError::WouldBlock))
    } else {
        (EntryModel { backlog: e.backlog.push(peer), ..e }, Ok(()))
    }
}

/// The first position of `x` in `s` from `i` on.
pub open spec fn index_of(s: Seq<TcpServerPeer>, x: TcpServerPeer, i: int) -> Option<int>
    decreases s.len() - i,
{
    if i >= s.len() {
        None
    } else if s[i] == x {
        Some(i)
    } else {
        index_of(s, x, i + 1)
    }
}

pub open spec fn step_drop_incoming(e: EntryModel, peer: TcpServerPeer) -> (EntryModel, Result<(), SocketError>) {
    if e.state != SocketState::Listening {
        (e, Err(SocketError::InvalidState))
    } else {
        match index_of(e.backlog, peer, 0) {
            None => (e, Err(SocketError::InvalidState)),
            Some(k) => (EntryModel { backlog: e.backlog.remove(k), ..e }, Ok(())),
        }
    }
}

pub open spec fn step_mark_connected(e: EntryModel) -> (EntryModel, Result<(), SocketError>) {
    if e.state != SocketState::Connecting {
        (e, Err(SocketError::InvalidState))
    } else {
        (EntryModel { state: SocketState::Established, ..e }, Ok(()))
    }
}

pub open spec fn step_send(e: EntryModel, bytes: Seq<u8>) -> (EntryModel, Result<usize, SocketError>) {
    if !(e.state == SocketState::Connecting || e.state == SocketState::Established || e.state
        == SocketState::ReadClosed) {
        (e, Err(SocketError::InvalidState))
    } else if bytes.len() > SOCKET_BUFFER_CAPACITY - (e.send.len() + e.in_flight_send) {
        (e, Err(SocketError::WouldBlock))
    } else {
        (EntryModel { send: queue_push(e.send, bytes).0, ..e }, queue_push(e.send, bytes).1)
    }
}

/// The send queue handed to the transport under `request_id`.
pub open spec fn in_flight(e: EntryModel, request_id: u64) -> EntryModel {
    EntryModel { send: Seq::empty(), in_flight_request: request_id, in_flight_send: e.send.len() as usize, ..e }
}

pub open spec fn step_begin_transport(e: EntryModel, protocol: SocketProtocol, request_id: u64) -> (EntryModel, Result<(u32, u16, usize), SocketError>) {
    if e.server_peer is Some || e.protocol != protocol || !connecting_or_established(e.state)
        || request_id == 0 || e.in_flight_request != 0 || e.in_flight_send != 0 || e.send.len() == 0 {
        (e, Err(SocketError::InvalidState))
    } else {
        (in_flight(e, request_id), Ok((e.target, e.port, e.send.len() as usize)))
    }
}

pub open spec fn transport_active(e: EntryModel, protocol: SocketProtocol, request_id: u64, length: usize) -> bool {
    &&& e.server_peer is None
    &&& e.protocol == protocol
    &&& connecting_or_established(e.state)
    &&& e.in_flight_request == request_id
    &&& e.in_flight_send == length
    &&& request_id != 0
    &&& length != 0
}

pub open spec fn step_complete_transport(e: EntryModel, protocol: SocketProtocol, request_id: u64, response: Seq<u8>) -> (EntryModel, Result<usize, SocketError>) {
    if e.protocol != protocol || !connecting_or_established(e.state) || e.in_flight_request
        != request_id || e.in_flight_send == 0 {
        (e, Err(SocketError::InvalidState))
    } else {
        let (q, r) = queue_push(e.receive, response);
        (
            EntryModel {
                receive: q,
                in_flight_request: 0,
                in_flight_send: 0,
                state: if r is Ok && protocol == SocketProtocol::TcpStream {
                    SocketState::Established
                } else if r is Err {
                    SocketState::Failed
                } else {
                    e.state
                },
                ..e
            },
            r,
        )
    }
}

pub open spec fn step_fail_transport(e: EntryModel, protocol: SocketProtocol, request_id: u64) -> (EntryModel, Result<(), SocketError>) {
    if e.protocol != protocol || e.in_flight_request != request_id || e.in_flight_send == 0 {
        (e, Err(SocketError::InvalidState))
    } else {
        (EntryModel { in_flight_request: 0, in_flight_send: 0, state: SocketState::Failed, ..e }, Ok(()))
    }
}

pub open spec fn established_or_read_closed(st: SocketState) -> bool {
    st == SocketState::Established || st == SocketState::ReadClosed
}

pub open spec fn step_begin_server_send(e: EntryModel, request_id: u64) -> (EntryModel, Result<usize, SocketError>) {
    if e.server_peer is None || !established_or_read_closed(e.state) || request_id == 0
        || e.in_flight_request != 0 || e.in_flight_send != 0 || e.send.len() == 0 {
        (e, Err(SocketError::InvalidState))
    } else {
        (in_flight(e, request_id), Ok(e.send.len() as usize))
    }
}

pub open spec fn step_complete_server_send(e: EntryModel, peer: TcpServerPeer, request_id: u64) -> (EntryModel, Result<usize, SocketError>) {
    if e.server_peer != Some(peer) || e.in_flight_request != request_id || e.in_flight_send == 0 {
        (e, Err(SocketError::InvalidState))
    } else {
        (EntryModel { in_flight_request: 0, in_flight_send: 0, ..e }, Ok(e.in_flight_send))
    }
}

pub open spec fn step_mark_server_read_closed(e: EntryModel, peer: TcpServerPeer) -> (EntryModel, Result<(), SocketError>) {
    if e.server_peer != Some(peer) {
        (e, Err(SocketError::InvalidState))
    } else if e.state == SocketState::Established {
        (EntryModel { state: SocketState::ReadClosed, ..e }, Ok(()))
    } else if e.state == SocketState::WriteClosed || e.state == SocketState::ReadClosed || e.state
        == SocketState::Closed {
        (e, Ok(()))
    } else {
        (e, Err(SocketError::InvalidState))
    }
}

/// The send side cancelled: nothing queued and nothing in flight.
pub open spec fn cancelled(e: EntryModel, state: SocketState) -> EntryModel {
    EntryModel { send: Seq::empty(), in_flight_request: 0, in_flight_send: 0, state, ..e }
}

pub open spec fn step_mark_server_closed(e: EntryModel, peer: TcpServerPeer) -> (EntryModel, Result<(), SocketError>) {
    if e.server_peer != Some(peer) {
        (e, Err(SocketError::InvalidState))
    } else {
        (cancelled(e, SocketState::Closed), Ok(()))
    }
}

pub open spec fn step_begin_udp_send(e: EntryModel, request_id: u64) -> (EntryModel, Result<(u32, u16, usize), SocketError>) {
    if e.protocol != SocketProtocol::Udp || e.state != SocketState::Established || request_id == 0
        || e.in_flight_request != 0 || e.in_flight_send != 0 || e.send.len() == 0 {
        (e, Err(SocketError::InvalidState))
    } else {
        (in_flight(e, request_id), Ok((e.target, e.port, e.send.len() as usize)))
    }
}

pub open spec fn step_complete_udp_send(e: EntryModel, request_id: u64, response: Seq<u8>) -> (EntryModel, Result<usize, SocketError>) {
    if e.protocol != SocketProtocol::Udp || e.state != SocketState::Established || e.in_flight_request
        != request_id || e.in_flight_send == 0 {
        (e, Err(SocketError::InvalidState))
    } else {
        let (q, r) = queue_push(e.receive, response);
        (
            EntryModel {
                receive: q,
                in_flight_request: 0,
                in_flight_send: 0,
                state: if r is Err {
                    SocketState::Failed
                } else {
                    e.state
                },
                ..e
            },
            r,
        )
    }
}

pub open spec fn step_fail_udp_send(e: EntryModel, request_id: u64) -> (EntryModel, Result<(), SocketError>) {
    if e.protocol != SocketProtocol::Udp || e.in_flight_request != request_id || e.in_flight_send == 0 {
        (e, Err(SocketError::InvalidState))
    } else {
        (EntryModel { in_flight_request: 0, in_flight_send: 0, state: SocketState::Failed, ..e }, Ok(()))
    }
}

pub open spec fn step_push_receive(e: EntryModel, bytes: Seq<u8>) -> (EntryModel, Result<usize, SocketError>) {
    if !(e.state == SocketState::Established || e.state == SocketState::WriteClosed) {
        (e, Err(SocketError::InvalidState))
    } else {
        (EntryModel { receive: queue_push(e.receive, bytes).0, ..e }, queue_push(e.receive, bytes).1)
    }
}

/// Received bytes can be read once the socket is past connecting.
pub open spec fn may_receive(e: EntryModel) -> bool {
    !(e.state == SocketState::Open || e.state == SocketState::Connecting)
}

pub open spec fn step_take_send(e: EntryModel, output: Seq<u8>) -> (EntryModel, Result<usize, SocketError>) {
    (EntryModel { send: queue_pop(e.send, output).0, ..e }, queue_pop(e.send, output).2)
}

pub open spec fn step_receive(e: EntryModel, output: Seq<u8>) -> (EntryModel, Result<usize, SocketError>) {
    if !may_receive(e) {
        (e, Err(SocketError::WouldBlock))
    } else {
        (EntryModel { receive: queue_pop(e.receive, output).0, ..e }, queue_pop(e.receive, output).2)
    }
}

pub open spec fn step_shutdown(e: EntryModel, read: bool, write: bool) -> (EntryModel, Result<(), SocketError>) {
    if e.state == SocketState::Closed || e.state == SocketState::Failed || e.state == SocketState::Bound
        || e.state == SocketState::Listening {
        (e, Err(SocketError::InvalidState))
    } else if e.server_peer is Some && write && (e.send.len() != 0 || e.in_flight_send != 0) {
        (e, Err(SocketError::WouldBlock))
    } else if e.server_peer is Some && write {
        (
            EntryModel {
                receive: if read {
                    Seq::empty()
                } else {
                    e.receive
                },
                send: Seq::empty(),
                state: SocketState::WriteClosed,
                ..e
            },
            Ok(()),
        )
    } else {
        let e1 = EntryModel {
            receive: if read {
                Seq::empty()
            } else {
                e.receive
            },
            ..e
        };
        let e2 = if write {
            EntryModel { send: Seq::empty(), in_flight_request: 0, in_flight_send: 0, ..e1 }
        } else {
            e1
        };
        let state = if (read && write) || (read && !write && e.state == SocketState::WriteClosed) || (
        !read && write && e.state == SocketState::ReadClosed) {
            SocketState::Closed
        } else if read {
            SocketState::ReadClosed
        } else {
            SocketState::WriteClosed
        };
        (EntryModel { state, ..e2 }, Ok(()))
    }
}

pub open spec fn step_fail(e: EntryModel) -> (EntryModel, Result<(), SocketError>) {
    (cancelled(e, SocketState::Failed), Ok(()))
}

/// The handles of `owner`'s sockets in slot order, from slot `i` on.
pub open spec fn handles_of(s: Seq<Option<EntryModel>>, owner: SocketOwner, i: int) -> Seq<u64>
    decreases s.len() - i,
{
    if i >= s.len() {
        Seq::empty()
    } else if s[i] is Some && s[i]->0.owner == owner {
        seq![s[i]->0.handle] + handles_of(s, owner, i + 1)
    } else {
        handles_of(s, owner, i + 1)
    }
}

pub open spec fn owned_by(owner: SocketOwner) -> spec_fn(EntryModel) -> bool {
    |e: EntryModel| e.owner == owner
}

/// A TCP socket bound or listening on `local_port`.
pub open spec fn holds_port(local_port: u16) -> spec_fn(EntryModel) -> bool {
    |e: EntryModel| e.protocol == SocketProtocol::TcpStream && e.local_port == local_port && (e.state
        == SocketState::Bound || e.state == SocketState::Listening)
}

pub open spec fn listens_on(local_port: u16) -> spec_fn(EntryModel) -> bool {
    |e: EntryModel| e.protocol == SocketProtocol::TcpStream && e.state == SocketState::Listening
        && e.local_port == local_port
}

/// A connected UDP socket of `owner` with bytes queued and nothing in flight.
pub open spec fn udp_pending(owner: SocketOwner) -> spec_fn(EntryModel) -> bool {
    |e: EntryModel| e.owner == owner && e.protocol == SocketProtocol::Udp && e.state
        == SocketState::Established && e.send.len() != 0 && e.in_flight_send == 0
}

/// A client socket of `owner` with bytes queued and nothing in flight.
pub open spec fn transport_pending(owner: SocketOwner) -> spec_fn(EntryModel) -> bool {
    |e: EntryModel| e.owner == owner && e.server_peer is None && connecting_or_established(e.state)
        && e.send.len() != 0 && e.in_flight_send == 0
}

/// An accepted connection with `peer` that is still reachable.
pub open spec fn serves(peer: TcpServerPeer) -> spec_fn(EntryModel) -> bool {
    |e: EntryModel| e.protocol == SocketProtocol::TcpStream && e.server_peer == Some(peer) && (e.state
        == SocketState::Established || e.state == SocketState::ReadClosed || e.state
        == SocketState::WriteClosed || e.state == SocketState::Closed)
}

pub open spec fn spec_close(m: SocketsModel, owner: SocketOwner, handle: u64) -> (SocketsModel, Result<(), SocketError>) {
    match find(m, owner, handle) {
        None => (m, Err(SocketError::InvalidHandle)),
        Some(i) => (SocketsModel { entries: m.entries.update(i, None), ..m }, Ok(())),
    }
}

/// Every socket of `owner` removed.
pub open spec fn without_owner(s: Seq<Option<EntryModel>>, owner: SocketOwner) -> Seq<Option<EntryModel>> {
    Seq::new(s.len(), |i: int| if s[i] is Some && s[i]->0.owner == owner { None } else { s[i] })
}

pub open spec fn spec_accept(m: SocketsModel, owner: SocketOwner, handle: u64) -> (SocketsModel, Result<u64, SocketError>) {
    if first_free(m.entries, 0) is None {
        (m, Err(SocketError::Capacity))
    } else {
        match find(m, owner, handle) {
            None => (m, Err(SocketError::InvalidHandle)),
            Some(l) => {
                let le = m.entries[l]->0;
                if le.state != SocketState::Listening || le.backlog.len() == 0 {
                    (m, Err(SocketError::WouldBlock))
                } else {
                    match spec_open(m, owner, SocketProtocol::TcpStream) {
                        (_, Err(e)) => (m, Err(e)),
                        (m1, Ok(h)) => {
                            let c = le.backlog[0];
                            let i = first_free(m.entries, 0)->0;
                            let child = EntryModel {
                                target: c.target,
                                port: c.remote_port,
                                local_port: le.local_port,
                                server_peer: Some(c),
                                state: SocketState::Established,
                                ..m1.entries[i]->0
                            };
                            (
                                SocketsModel {
                                    entries: m1.entries.update(
                                        l,
                                        Some(EntryModel { backlog: le.backlog.subrange(1, le.backlog.len() as int), ..le }),
                                    ).update(i, Some(child)),
                                    ..m1
                                },
                                Ok(h),
                            )
                        },
                    }
                }
            },
        }
    }
}

struct SocketEntry {
    handle: u64,
    generation: u64,
    owner: SocketOwner,
    protocol: SocketProtocol,
    state: SocketState,
    target: u32,
    port: u16,
    local_port: u16,
    backlog_limit: usize,
    backlog: Vec<TcpServerPeer>,
    server_peer: Option<TcpServerPeer>,
    send: Vec<u8>,
    in_flight_request: u64,
    in_flight_send: usize,
    receive: Vec<u8>,
}

impl SocketEntry {
    spec fn model(&self) -> EntryModel {
        EntryModel {
            handle: self.handle,
            generation: self.generation,
            owner: self.owner,
            protocol: self.protocol,
            state: self.state,
            target: self.target,
            port: self.port,
            local_port: self.local_port,
            backlog_limit: self.backlog_limit,
            backlog: self.backlog@,
            server_peer: self.server_peer,
            send: self.send@,
            in_flight_request: self.in_flight_request,
            in_flight_send: self.in_flight_send,
            receive: self.receive@,
        }
    }

    fn status(&self) -> (s: SocketStatus)
        requires
            self.send@.len() + self.in_flight_send <= SOCKET_BUFFER_CAPACITY,
            self.receive@.len() <= SOCKET_BUFFER_CAPACITY,
        ensures
            s == status_of(self.model()),
    {
        let state = self.state;
        let queued_send = self.send.len() + self.in_flight_send;
        let mut readiness: u64 = 0;
        if self.receive.len() != 0 || (state == SocketState::Listening && self.backlog.len() != 0) {
            readiness = readiness + SOCKET_READY_READABLE;
        }
        if queued_send < SOCKET_BUFFER_CAPACITY && !(state == SocketState::WriteClosed || state
            == SocketState::Closed || state == SocketState::Failed || state == SocketState::Bound
            || state == SocketState::Listening) {
            readiness = readiness + SOCKET_READY_WRITABLE;
        }
        if state == SocketState::Established {
            readiness = readiness + SOCKET_READY_CONNECTED;
        }
        if state == SocketState::ReadClosed || state == SocketState::WriteClosed || state
            == SocketState::Closed || state == SocketState::Failed {
            readiness = readiness + SOCKET_READY_CLOSED;
        }
        if state == SocketState::Failed {
            readiness = readiness + SOCKET_READY_ERROR;
        }
        if state == SocketState::Listening && self.backlog.len() != 0 {
            readiness = readiness + SOCKET_READY_ACCEPT;
        }
        SocketStatus {
            protocol: self.protocol,
            state,
            readiness,
            queued_send,
            queued_receive: self.receive.len(),
        }
    }
}

/// Appends `bytes` to `q` when it fits.
fn push_bytes(q: &mut Vec<u8>, bytes: &[u8]) -> (r: Result<usize, SocketError>)
    requires
        old(q)@.len() <= SOCKET_BUFFER_CAPACITY,
    ensures
        (final(q)@, r) == queue_push(old(q)@, bytes@),
{
    if bytes.len() == 0 || bytes.len() > SOCKET_BUFFER_CAPACITY - q.len() {
        return Err(SocketError::WouldBlock);
    }
    let mut i: usize = 0;
    while i < bytes.len()
        invariant
            i <= bytes@.len(),
            q@ == old(q)@ + bytes@.subrange(0, i as int),
        decreases bytes@.len() - i,
    {
        q.push(bytes[i]);
        i += 1;
        assert(q@ =~= old(q)@ + bytes@.subrange(0, i as int));
    }
    assert(bytes@.subrange(0, i as int) =~= bytes@);
    Ok(bytes.len())
}

/// Moves the front of `q` into `output`, as much as fits.
fn pop_bytes(q: &mut Vec<u8>, output: &mut [u8]) -> (r: Result<usize, SocketError>)
    ensures
        (final(q)@, final(output)@, r) == queue_pop(old(q)@, old(output)@),
{
    let qlen = q.len();
    if qlen == 0 {
        return Err(SocketError::WouldBlock);
    }
    let olen = output.len();
    let n = if qlen < olen {
        qlen
    } else {
        olen
    };
    let mut i: usize = 0;
    while i < n
        invariant
            n <= qlen,
            n <= olen,
            qlen == q@.len(),
            q@ == old(q)@,
            olen == output@.len(),
            olen == old(output)@.len(),
            i <= n,
            output@ == old(q)@.subrange(0, i as int) + old(output)@.subrange(i as int, olen as int),
        decreases n - i,
    {
        output[i] = q[i];
        i += 1;
        assert(output@ =~= old(q)@.subrange(0, i as int) + old(output)@.subrange(i as int, olen as int));
    }
    let mut rest: Vec<u8> = Vec::new();
    let mut j: usize = n;
    while j < qlen
        invariant
            n <= j <= qlen,
            qlen == q@.len(),
            q@ == old(q)@,
            rest@ == old(q)@.subrange(n as int, j as int),
        decreases qlen - j,
    {
        rest.push(q[j]);
        j += 1;
        assert(rest@ =~= old(q)@.subrange(n as int, j as int));
    }
    *q = rest;
    Ok(n)
}

/// Copies a whole queue into the front of `output`.
fn copy_out(q: &Vec<u8>, output: &mut [u8; 128])
    requires
        q@.len() <= SOCKET_BUFFER_CAPACITY,
    ensures
        final(output)@ == q@ + old(output)@.subrange(q@.len() as int, 128),
{
    let n = q.len();
    let mut i: usize = 0;
    while i < n
        invariant
            n == q@.len(),
            n <= 128,
            i <= n,
            output@.len() == 128,
            output@ == q@.subrange(0, i as int) + old(output)@.subrange(i as int, 128),
        decreases n - i,
    {
        output[i] = q[i];
        i += 1;
        assert(output@ =~= q@.subrange(0, i as int) + old(output)@.subrange(i as int, 128));
    }
    assert(q@.subrange(0, i as int) =~= q@);
}

fn socket_handle(owner: SocketOwner, generation: u64, slot: usize) -> (h: u64)
    requires
        generation <= SOCKET_GENERATION_MAX,
        slot < SOCKET_CAPACITY,
    ensures
        h == spec_socket_handle(owner, generation, slot as int),
{
    let owner_slot: u64 = (owner.slot % 16) as u64;
    let incarnation: u64 = owner.incarnation % 0x1000_0000;
    SOCKET_HANDLE_TAG + owner_slot * 0x10_0000_0000_0000 + incarnation * 0x100_0000 + generation * 256
        + slot as u64 + 1
}

fn socket_slot(handle: u64) -> (r: Option<usize>)
    ensures
        match (r, spec_socket_slot(handle)) {
            (Some(a), Some(b)) => a == b,
            (None, None) => true,
            _ => false,
        },
{
    let low = handle % 256;
    if handle / 0x100_0000_0000_0000 != 0xe7 || low == 0 || low > 4 {
        return None;
    }
    Some((low - 1) as usize)
}

pub struct SocketSet {
    entries: Vec<Option<SocketEntry>>,
    next_generation: u64,
}

spec fn entry_view(o: Option<SocketEntry>) -> Option<EntryModel> {
    match o {
        None => None,
        Some(e) => Some(e.model()),
    }
}

impl SocketSet {
    pub closed spec fn view(&self) -> SocketsModel {
        SocketsModel {
            entries: self.entries@.map_values(|o: Option<SocketEntry>| entry_view(o)),
            next_generation: self.next_generation,
        }
    }

    pub closed spec fn wf(&self) -> bool {
        sockets_wf(self@)
    }

    pub fn new() -> (s: SocketSet)
        ensures
            s.wf(),
            s@.entries == seq![None::<EntryModel>, None, None, None],
            s@.next_generation == 1,
    {
        let mut entries: Vec<Option<SocketEntry>> = Vec::new();
        entries.push(None);
        entries.push(None);
        entries.push(None);
        entries.push(None);
        let s = SocketSet { entries, next_generation: 1 };
        assert(s@.entries =~= seq![None::<EntryModel>, None, None, None]);
        s
    }

    /// The slot of the live socket that `handle` names for `owner`.
    fn slot_for(&self, owner: SocketOwner, handle: u64) -> (r: Result<usize, SocketError>)
        requires
            self.wf(),
        ensures
            match (r, find(self@, owner, handle)) {
                (Ok(s), Some(i)) => s == i,
                (Err(e), None) => e == SocketError::InvalidHandle,
                _ => false,
            },
    {
        let slot = match socket_slot(handle) {
            None => return Err(SocketError::InvalidHandle),
            Some(s) => s,
        };
        match &self.entries[slot] {
            None => Err(SocketError::InvalidHandle),
            Some(e) => {
                proof {
                    assert(self@.entries[slot as int] == entry_view(self.entries@[slot as int]));
                    assert(entry_wf(self@.entries[slot as int]->0, slot as int, self.next_generation));
                }
                if e.handle != handle || e.owner != owner || socket_handle(e.owner, e.generation, slot)
                    != handle {
                    Err(SocketError::InvalidHandle)
                } else {
                    Ok(slot)
                }
            },
        }
    }

    /// Removes the socket in `slot`, leaving the slot empty.
    fn take(&mut self, slot: usize) -> (e: SocketEntry)
        requires
            old(self).wf(),
            slot < old(self).entries@.len(),
            old(self).entries@[slot as int] is Some,
        ensures
            final(self).wf(),
            Some(e.model()) == old(self)@.entries[slot as int],
            entry_wf(e.model(), slot as int, old(self)@.next_generation),
            final(self)@ == (SocketsModel { entries: old(self)@.entries.update(slot as int, None), ..old(self)@ }),
    {
        proof {
            assert(old(self)@.entries[slot as int] == entry_view(old(self).entries@[slot as int]));
        }
        let e = self.entries.remove(slot);
        self.entries.insert(slot, None);
        assert(self@.entries =~= old(self)@.entries.update(slot as int, None));
        e.unwrap()
    }

    /// Puts `e` back into the slot that `take` emptied.
    fn put(&mut self, slot: usize, e: SocketEntry, Ghost(before): Ghost<SocketsModel>)
        requires
            old(self).wf(),
            slot < before.entries.len(),
            old(self)@ == (SocketsModel { entries: before.entries.update(slot as int, None), ..before }),
            entry_wf(e.model(), slot as int, old(self)@.next_generation),
        ensures
            final(self).wf(),
            final(self)@ == (SocketsModel { entries: before.entries.update(slot as int, Some(e.model())), ..before }),
    {
        let ghost m = e.model();
        self.entries.set(slot, Some(e));
        assert forall|i: int| 0 <= i < before.entries.len() implies #[trigger] self@.entries[i]
            == before.entries.update(slot as int, Some(m))[i] by {
            if i != slot {
                assert(self@.entries[i] == old(self)@.entries[i]);
            }
        }
        assert(self@.entries =~= before.entries.update(slot as int, Some(m)));
        assert forall|i: int| 0 <= i < self@.entries.len() && #[trigger] self@.entries[i] is Some implies entry_wf(
            self@.entries[i]->0,
            i,
            self@.next_generation,
        ) by {
            if i != slot {
                assert(old(self)@.entries[i] == self@.entries[i]);
            }
        }
    }

    /// Puts a new socket into an empty slot.
    fn fill(&mut self, slot: usize, e: SocketEntry)
        requires
            old(self).wf(),
            slot < old(self).entries@.len(),
            entry_wf(e.model(), slot as int, old(self)@.next_generation),
        ensures
            final(self).wf(),
            final(self)@ == (SocketsModel { entries: old(self)@.entries.update(slot as int, Some(e.model())), ..old(self)@ }),
    {
        let ghost m = e.model();
        self.entries.set(slot, Some(e));
        assert(self@.entries =~= old(self)@.entries.update(slot as int, Some(m)));
        assert forall|i: int| 0 <= i < self@.entries.len() && #[trigger] self@.entries[i] is Some implies entry_wf(
            self@.entries[i]->0,
            i,
            self@.next_generation,
        ) by {
            if i != slot {
                assert(old(self)@.entries[i] == self@.entries[i]);
            }
        }
    }

    pub fn open(&mut self, owner: SocketOwner, protocol: SocketProtocol) -> (r: Result<u64, SocketError>)
        requires
            old(self).wf(),
        ensures
            final(self).wf(),
            (final(self)@, r) == spec_open(old(self)@, owner, protocol),
    {
        let mut slot: usize = 0;
        while slot < SOCKET_CAPACITY && self.entries[slot].is_some()
            invariant
                self.wf(),
                slot <= SOCKET_CAPACITY,
                first_free(self@.entries, 0) == first_free(self@.entries, slot as int),
            decreases SOCKET_CAPACITY - slot,
        {
            slot += 1;
        }
        if slot == SOCKET_CAPACITY {
            return Err(SocketError::Capacity);
        }
        let generation = self.next_generation;
        if generation == 0 || generation > SOCKET_GENERATION_MAX {
            return Err(SocketError::Capacity);
        }
        self.next_generation = generation + 1;
        let handle = socket_handle(owner, generation, slot);
        let e = SocketEntry {
            handle,
            generation,
            owner,
            protocol,
            state: SocketState::Open,
            target: 0,
            port: 0,
            local_port: 0,
            backlog_limit: 0,
            backlog: Vec::new(),
            server_peer: None,
            send: Vec::new(),
            in_flight_request: 0,
            in_flight_send: 0,
            receive: Vec::new(),
        };
        assert(e.model() == fresh_entry(handle, generation, owner, protocol));
        self.fill(slot, e);
        Ok(handle)
    }

    pub fn connect(&mut self, owner: SocketOwner, handle: u64, target: u32, port: u16) -> (r: Result<(), SocketError>)
        requires
            old(self).wf(),
        ensures
            final(self).wf(),
            by_handle(old(self)@, final(self)@, owner, handle, r, |e: EntryModel| step_connect(e, target, port)),
    {
        let slot = match self.slot_for(owner, handle) {
            Ok(s) => s,
            Err(err) => return Err(err),
        };
        let ghost before = self@;
        let mut e = self.take(slot);
        let r = if target == 0 || port == 0 || e.state != SocketState::Open {
            Err(SocketError::InvalidState)
        } else {
            e.target = target;
            e.port = port;
            e.state = match e.protocol {
                SocketProtocol::Udp => SocketState::Established,
                SocketProtocol::TcpStream => SocketState::Connecting,
            };
            Ok(())
        };
        self.put(slot, e, Ghost(before));
        r
    }

    pub fn validate_bind(&self, owner: SocketOwner, handle: u64, local_port: u16) -> (r: Result<(), SocketError>)
        requires
            self.wf(),
        ensures
            r == read_by_handle(self@, owner, handle, |e: EntryModel| if bind_allowed(e, local_port) {
                Ok::<(), SocketError>(())
            } else {
                Err(SocketError::InvalidState)
            }),
    {
        let slot = match self.slot_for(owner, handle) {
            Ok(s) => s,
            Err(err) => return Err(err),
        };
        match &self.entries[slot] {
            None => Err(SocketError::InvalidHandle),
            Some(e) => {
                proof {
                    assert(self@.entries[slot as int] == entry_view(self.entries@[slot as int]));
                }
                if e.protocol != SocketProtocol::TcpStream || e.state != SocketState::Open || local_port
                    < SOCKET_LISTENER_PORT_MIN {
                    Err(SocketError::InvalidState)
                } else {
                    Ok(())
                }
            },
        }
    }

    pub fn bind(&mut self, owner: SocketOwner, handle: u64, local_port: u16) -> (r: Result<(), SocketError>)
        requires
            old(self).wf(),
        ensures
            final(self).wf(),
            by_handle(old(self)@, final(self)@, owner, handle, r, |e: EntryModel| step_bind(e, local_port)),
    {
        let slot = match self.slot_for(owner, handle) {
            Ok(s) => s,
            Err(err) => return Err(err),
        };
        let ghost before = self@;
        let mut e = self.take(slot);
        let r = if e.protocol != SocketProtocol::TcpStream || e.state != SocketState::Open || local_port
            < SOCKET_LISTENER_PORT_MIN {
            Err(SocketError::InvalidState)
        } else {
            e.local_port = local_port;
            e.state = SocketState::Bound;
            Ok(())
        };
        self.put(slot, e, Ghost(before));
        r
    }

    pub fn listen(&mut self, owner: SocketOwner, handle: u64, backlog: usize) -> (r: Result<(), SocketError>)
        requires
            old(self).wf(),
        ensures
            final(self).wf(),
            by_handle(old(self)@, final(self)@, owner, handle, r, |e: EntryModel| step_listen(e, backlog)),
    {
        let slot = match self.slot_for(owner, handle) {
            Ok(s) => s,
            Err(err) => return Err(err),
        };
        let ghost before = self@;
        let mut e = self.take(slot);
        let r = if e.protocol != SocketProtocol::TcpStream || e.state != SocketState::Bound || backlog == 0
            || backlog > SOCKET_LISTENER_BACKLOG_CAPACITY {
            Err(SocketError::InvalidState)
        } else {
            e.backlog_limit = backlog;
            e.state = SocketState::Listening;
            Ok(())
        };
        self.put(slot, e, Ghost(before));
        r
    }

    pub fn queue_incoming(&mut self, owner: SocketOwner, handle: u64, peer: TcpServerPeer) -> (r: Result<(), SocketError>)
        requires
            old(self).wf(),
        ensures
            final(self).wf(),
            by_handle(old(self)@, final(self)@, owner, handle, r, |e: EntryModel| step_queue_incoming(e, peer)),
    {
        let slot = match self.slot_for(owner, handle) {
            Ok(s) => s,
            Err(err) => return Err(err),
        };
        let ghost before = self@;
        let mut e = self.take(slot);
        let r = if e.state != SocketState::Listening || peer.target == 0 || peer.remote_port == 0
            || peer.local_port != e.local_port || e.backlog.len() >= e.backlog_limit {
            Err(SocketError::WouldBlock)
        } else {
            e.backlog.push(peer);
            Ok(())
        };
        self.put(slot, e, Ghost(before));
        r
    }

    pub fn drop_incoming(&mut self, owner: SocketOwner, handle: u64, peer: TcpServerPeer) -> (r: Result<(), SocketError>)
        requires
            old(self).wf(),
        ensures
            final(self).wf(),
            by_handle(old(self)@, final(self)@, owner, handle, r, |e: EntryModel| step_drop_incoming(e, peer)),
    {
        let slot = match self.slot_for(owner, handle) {
            Ok(s) => s,
            Err(err) => return Err(err),
        };
        let ghost before = self@;
        let mut e = self.take(slot);
        let r = if e.state != SocketState::Listening {
            Err(SocketError::InvalidState)
        } else {
            let mut k: usize = 0;
            while k < e.backlog.len() && !peer_eq(&e.backlog[k], &peer)
                invariant
                    k <= e.backlog@.len(),
                    index_of(e.backlog@, peer, 0) == index_of(e.backlog@, peer, k as int),
                decreases e.backlog@.len() - k,
            {
                k += 1;
            }
            if k == e.backlog.len() {
                Err(SocketError::InvalidState)
            } else {
                e.backlog.remove(k);
                Ok(())
            }
        };
        self.put(slot, e, Ghost(before));
        r
    }

    pub fn mark_connected(&mut self, owner: SocketOwner, handle: u64) -> (r: Result<(), SocketError>)
        requires
            old(self).wf(),
        ensures
            final(self).wf(),
            by_handle(old(self)@, final(self)@, owner, handle, r, |e: EntryModel| step_mark_connected(e)),
    {
        let slot = match self.slot_for(owner, handle) {
            Ok(s) => s,
            Err(err) => return Err(err),
        };
        let ghost before = self@;
        let mut e = self.take(slot);
        let r = if e.state != SocketState::Connecting {
            Err(SocketError::InvalidState)
        } else {
            e.state = SocketState::Established;
            Ok(())
        };
        self.put(slot, e, Ghost(before));
        r
    }

    pub fn send(&mut self, owner: SocketOwner, handle: u64, bytes: &[u8]) -> (r: Result<usize, SocketError>)
        requires
            old(self).wf(),
        ensures
            final(self).wf(),
            by_handle(old(self)@, final(self)@, owner, handle, r, |e: EntryModel| step_send(e, bytes@)),
    {
        let slot = match self.slot_for(owner, handle) {
            Ok(s) => s,
            Err(err) => return Err(err),
        };
        let ghost before = self@;
        let mut e = self.take(slot);
        let r = if !(e.state == SocketState::Connecting || e.state == SocketState::Established || e.state
            == SocketState::ReadClosed) {
            Err(SocketError::InvalidState)
        } else if bytes.len() > SOCKET_BUFFER_CAPACITY - (e.send.len() + e.in_flight_send) {
            Err(SocketError::WouldBlock)
        } else {
            push_bytes(&mut e.send, bytes)
        };
        self.put(slot, e, Ghost(before));
        r
    }

    pub fn fail(&mut self, owner: SocketOwner, handle: u64) -> (r: Result<(), SocketError>)
        requires
            old(self).wf(),
        ensures
            final(self).wf(),
            by_handle(old(self)@, final(self)@, owner, handle, r, |e: EntryModel| step_fail(e)),
    {
        let slot = match self.slot_for(owner, handle) {
            Ok(s) => s,
            Err(err) => return Err(err),
        };
        let ghost before = self@;
        let mut e = self.take(slot);
        e.send = Vec::new();
        e.in_flight_request = 0;
        e.in_flight_send = 0;
        e.state = SocketState::Failed;
        self.put(slot, e, Ghost(before));
        Ok(())
    }

    pub fn close(&mut self, owner: SocketOwner, handle: u64) -> (r: Result<(), SocketError>)
        requires
            old(self).wf(),
        ensures
            final(self).wf(),
            (final(self)@, r) == spec_close(old(self)@, owner, handle),
    {
        let slot = match self.slot_for(owner, handle) {
            Ok(s) => s,
            Err(err) => return Err(err),
        };
        let _e = self.take(slot);
        Ok(())
    }

    pub fn begin_transport(
        &mut self,
        owner: SocketOwner,
        handle: u64,
        protocol: SocketProtocol,
        request_id: u64,
        output: &mut [u8; 128],
    ) -> (r: Result<(u32, u16, usize), SocketError>)
        requires
            old(self).wf(),
        ensures
            final(self).wf(),
            by_handle(old(self)@, final(self)@, owner, handle, r, |e: EntryModel| step_begin_transport(e, protocol, request_id)),
            copied_out(old(self)@, owner, handle, r, old(output)@, final(output)@),
    {
        let slot = match self.slot_for(owner, handle) {
            Ok(s) => s,
            Err(err) => return Err(err),
        };
        let ghost before = self@;
        let mut e = self.take(slot);
        let r = if e.server_peer.is_some() || e.protocol != protocol || !(e.state
            == SocketState::Connecting || e.state == SocketState::Established) || request_id == 0
            || e.in_flight_request != 0 || e.in_flight_send != 0 || e.send.len() == 0 {
            Err(SocketError::InvalidState)
        } else {
            let len = e.send.len();
            copy_out(&e.send, output);
            e.send = Vec::new();
            e.in_flight_request = request_id;
            e.in_flight_send = len;
            Ok((e.target, e.port, len))
        };
        self.put(slot, e, Ghost(before));
        r
    }

    pub fn transport_request_active(
        &self,
        owner: SocketOwner,
        handle: u64,
        protocol: SocketProtocol,
        request_id: u64,
        length: usize,
    ) -> (r: bool)
        requires
            self.wf(),
        ensures
            r == holds_for(self@, owner, handle, |e: EntryModel| transport_active(e, protocol, request_id, length)),
    {
        let slot = match self.slot_for(owner, handle) {
            Ok(s) => s,
            Err(_) => return false,
        };
        match &self.entries[slot] {
            None => false,
            Some(e) => {
                proof {
                    assert(self@.entries[slot as int] == entry_view(self.entries@[slot as int]));
                }
                e.server_peer.is_none() && e.protocol == protocol && (e.state == SocketState::Connecting
                    || e.state == SocketState::Established) && e.in_flight_request == request_id
                    && e.in_flight_send == length && request_id != 0 && length != 0
            },
        }
    }

    pub fn complete_transport(
        &mut self,
        owner: SocketOwner,
        handle: u64,
        protocol: SocketProtocol,
        request_id: u64,
        response: &[u8],
    ) -> (r: Result<usize, SocketError>)
        requires
            old(self).wf(),
        ensures
            final(self).wf(),
            by_handle(old(self)@, final(self)@, owner, handle, r, |e: EntryModel| step_complete_transport(e, protocol, request_id, response@)),
    {
        let slot = match self.slot_for(owner, handle) {
            Ok(s) => s,
            Err(err) => return Err(err),
        };
        let ghost before = self@;
        let mut e = self.take(slot);
        let r = if e.protocol != protocol || !(e.state == SocketState::Connecting || e.state
            == SocketState::Established) || e.in_flight_request != request_id || e.in_flight_send
            == 0 {
            Err(SocketError::InvalidState)
        } else {
            let result = push_bytes(&mut e.receive, response);
            e.in_flight_request = 0;
            e.in_flight_send = 0;
            if result.is_ok() && protocol == SocketProtocol::TcpStream {
                e.state = SocketState::Established;
            } else if result.is_err() {
                e.state = SocketState::Failed;
            }
            result
        };
        self.put(slot, e, Ghost(before));
        r
    }

    pub fn fail_transport(&mut self, owner: SocketOwner, handle: u64, protocol: SocketProtocol, request_id: u64) -> (r: Result<(), SocketError>)
        requires
            old(self).wf(),
        ensures
            final(self).wf(),
            by_handle(old(self)@, final(self)@, owner, handle, r, |e: EntryModel| step_fail_transport(e, protocol, request_id)),
    {
        let slot = match self.slot_for(owner, handle) {
            Ok(s) => s,
            Err(err) => return Err(err),
        };
        let ghost before = self@;
        let mut e = self.take(slot);
        let r = if e.protocol != protocol || e.in_flight_request != request_id || e.in_flight_send == 0 {
            Err(SocketError::InvalidState)
        } else {
            e.in_flight_request = 0;
            e.in_flight_send = 0;
            e.state = SocketState::Failed;
            Ok(())
        };
        self.put(slot, e, Ghost(before));
        r
    }

    pub fn server_peer(&self, owner: SocketOwner, handle: u64) -> (r: Result<TcpServerPeer, SocketError>)
        requires
            self.wf(),
        ensures
            r == read_by_handle(self@, owner, handle, |e: EntryModel| match e.server_peer {
                Some(p) => Ok::<TcpServerPeer, SocketError>(p),
                None => Err(SocketError::InvalidState),
            }),
    {
        let slot = match self.slot_for(owner, handle) {
            Ok(s) => s,
            Err(err) => return Err(err),
        };
        match &self.entries[slot] {
            None => Err(SocketError::InvalidHandle),
            Some(e) => {
                proof {
                    assert(self@.entries[slot as int] == entry_view(self.entries@[slot as int]));
                }
                match e.server_peer {
                    Some(p) => Ok(p),
                    None => Err(SocketError::InvalidState),
                }
            },
        }
    }

    pub fn begin_server_send(&mut self, owner: SocketOwner, handle: u64, request_id: u64, output: &mut [u8; 128]) -> (r: Result<usize, SocketError>)
        requires
            old(self).wf(),
        ensures
            final(self).wf(),
            by_handle(old(self)@, final(self)@, owner, handle, r, |e: EntryModel| step_begin_server_send(e, request_id)),
            copied_out(old(self)@, owner, handle, r, old(output)@, final(output)@),
    {
        let slot = match self.slot_for(owner, handle) {
            Ok(s) => s,
            Err(err) => return Err(err),
        };
        let ghost before = self@;
        let mut e = self.take(slot);
        let r = if e.server_peer.is_none() || !(e.state == SocketState::Established || e.state
            == SocketState::ReadClosed) || request_id == 0 || e.in_flight_request != 0
            || e.in_flight_send != 0 || e.send.len() == 0 {
            Err(SocketError::InvalidState)
        } else {
            let len = e.send.len();
            copy_out(&e.send, output);
            e.send = Vec::new();
            e.in_flight_request = request_id;
            e.in_flight_send = len;
            Ok(len)
        };
        self.put(slot, e, Ghost(before));
        r
    }

    pub fn server_send_pending(&self, owner: SocketOwner, handle: u64, peer: TcpServerPeer) -> (r: bool)
        requires
            self.wf(),
        ensures
            r == holds_for(self@, owner, handle, |e: EntryModel| e.server_peer == Some(peer)
                && established_or_read_closed(e.state) && e.send.len() != 0 && e.in_flight_send == 0),
    {
        let slot = match self.slot_for(owner, handle) {
            Ok(s) => s,
            Err(_) => return false,
        };
        match &self.entries[slot] {
            None => false,
            Some(e) => {
                proof {
                    assert(self@.entries[slot as int] == entry_view(self.entries@[slot as int]));
                }
                peer_is(&e.server_peer, &peer) && (e.state == SocketState::Established || e.state
                    == SocketState::ReadClosed) && e.send.len() != 0 && e.in_flight_send == 0
            },
        }
    }

    pub fn server_send_active(
        &self,
        owner: SocketOwner,
        handle: u64,
        peer: TcpServerPeer,
        request_id: u64,
        length: usize,
    ) -> (r: bool)
        requires
            self.wf(),
        ensures
            r == holds_for(self@, owner, handle, |e: EntryModel| e.server_peer == Some(peer)
                && established_or_read_closed(e.state) && e.in_flight_request == request_id
                && e.in_flight_send == length && request_id != 0 && length != 0),
    {
        let slot = match self.slot_for(owner, handle) {
            Ok(s) => s,
            Err(_) => return false,
        };
        match &self.entries[slot] {
            None => false,
            Some(e) => {
                proof {
                    assert(self@.entries[slot as int] == entry_view(self.entries@[slot as int]));
                }
                peer_is(&e.server_peer, &peer) && (e.state == SocketState::Established || e.state
                    == SocketState::ReadClosed) && e.in_flight_request == request_id
                    && e.in_flight_send == length && request_id != 0 && length != 0
            },
        }
    }

    pub fn complete_server_send(&mut self, owner: SocketOwner, handle: u64, peer: TcpServerPeer, request_id: u64) -> (r: Result<usize, SocketError>)
        requires
            old(self).wf(),
        ensures
            final(self).wf(),
            by_handle(old(self)@, final(self)@, owner, handle, r, |e: EntryModel| step_complete_server_send(e, peer, request_id)),
    {
        let slot = match self.slot_for(owner, handle) {
            Ok(s) => s,
            Err(err) => return Err(err),
        };
        let ghost before = self@;
        let mut e = self.take(slot);
        let r = if !peer_is(&e.server_peer, &peer) || e.in_flight_request != request_id || e.in_flight_send
            == 0 {
            Err(SocketError::InvalidState)
        } else {
            let sent = e.in_flight_send;
            e.in_flight_request = 0;
            e.in_flight_send = 0;
            Ok(sent)
        };
        self.put(slot, e, Ghost(before));
        r
    }

    pub fn server_write_closed(&self, owner: SocketOwner, handle: u64, peer: TcpServerPeer) -> (r: bool)
        requires
            self.wf(),
        ensures
            r == holds_for(self@, owner, handle, |e: EntryModel| e.server_peer == Some(peer) && (e.state
                == SocketState::WriteClosed || e.state == SocketState::Closed) && e.send.len() == 0
                && e.in_flight_send == 0),
    {
        let slot = match self.slot_for(owner, handle) {
            Ok(s) => s,
            Err(_) => return false,
        };
        match &self.entries[slot] {
            None => false,
            Some(e) => {
                proof {
                    assert(self@.entries[slot as int] == entry_view(self.entries@[slot as int]));
                }
                peer_is(&e.server_peer, &peer) && (e.state == SocketState::WriteClosed || e.state
                    == SocketState::Closed) && e.send.len() == 0 && e.in_flight_send == 0
            },
        }
    }

    pub fn mark_server_read_closed(&mut self, owner: SocketOwner, handle: u64, peer: TcpServerPeer) -> (r: Result<(), SocketError>)
        requires
            old(self).wf(),
        ensures
            final(self).wf(),
            by_handle(old(self)@, final(self)@, owner, handle, r, |e: EntryModel| step_mark_server_read_closed(e, peer)),
    {
        let slot = match self.slot_for(owner, handle) {
            Ok(s) => s,
            Err(err) => return Err(err),
        };
        let ghost before = self@;
        let mut e = self.take(slot);
        let r = if !peer_is(&e.server_peer, &peer) {
            Err(SocketError::InvalidState)
        } else if e.state == SocketState::Established {
            e.state = SocketState::ReadClosed;
            Ok(())
        } else if e.state == SocketState::WriteClosed || e.state == SocketState::ReadClosed || e.state
            == SocketState::Closed {
            Ok(())
        } else {
            Err(SocketError::InvalidState)
        };
        self.put(slot, e, Ghost(before));
        r
    }

    pub fn mark_server_closed(&mut self, owner: SocketOwner, handle: u64, peer: TcpServerPeer) -> (r: Result<(), SocketError>)
        requires
            old(self).wf(),
        ensures
            final(self).wf(),
            by_handle(old(self)@, final(self)@, owner, handle, r, |e: EntryModel| step_mark_server_closed(e, peer)),
    {
        let slot = match self.slot_for(owner, handle) {
            Ok(s) => s,
            Err(err) => return Err(err),
        };
        let ghost before = self@;
        let mut e = self.take(slot);
        let r = if !peer_is(&e.server_peer, &peer) {
            Err(SocketError::InvalidState)
        } else {
            e.send = Vec::new();
            e.in_flight_request = 0;
            e.in_flight_send = 0;
            e.state = SocketState::Closed;
            Ok(())
        };
        self.put(slot, e, Ghost(before));
        r
    }

    pub fn begin_udp_send(&mut self, owner: SocketOwner, handle: u64, request_id: u64, output: &mut [u8; 128]) -> (r: Result<(u32, u16, usize), SocketError>)
        requires
            old(self).wf(),
        ensures
            final(self).wf(),
            by_handle(old(self)@, final(self)@, owner, handle, r, |e: EntryModel| step_begin_udp_send(e, request_id)),
            copied_out(old(self)@, owner, handle, r, old(output)@, final(output)@),
    {
        let slot = match self.slot_for(owner, handle) {
            Ok(s) => s,
            Err(err) => return Err(err),
        };
        let ghost before = self@;
        let mut e = self.take(slot);
        let r = if e.protocol != SocketProtocol::Udp || e.state != SocketState::Established || request_id
            == 0 || e.in_flight_request != 0 || e.in_flight_send != 0 || e.send.len() == 0 {
            Err(SocketError::InvalidState)
        } else {
            let len = e.send.len();
            copy_out(&e.send, output);
            e.send = Vec::new();
            e.in_flight_request = request_id;
            e.in_flight_send = len;
            Ok((e.target, e.port, len))
        };
        self.put(slot, e, Ghost(before));
        r
    }

    pub fn udp_request_active(&self, owner: SocketOwner, handle: u64, request_id: u64, length: usize) -> (r: bool)
        requires
            self.wf(),
        ensures
            r == holds_for(self@, owner, handle, |e: EntryModel| e.protocol == SocketProtocol::Udp
                && e.state == SocketState::Established && e.in_flight_request == request_id
                && e.in_flight_send == length && request_id != 0 && length != 0),
    {
        let slot = match self.slot_for(owner, handle) {
            Ok(s) => s,
            Err(_) => return false,
        };
        match &self.entries[slot] {
            None => false,
            Some(e) => {
                proof {
                    assert(self@.entries[slot as int] == entry_view(self.entries@[slot as int]));
                }
                e.protocol == SocketProtocol::Udp && e.state == SocketState::Established
                    && e.in_flight_request == request_id && e.in_flight_send == length && request_id
                    != 0 && length != 0
            },
        }
    }

    pub fn complete_udp_send(&mut self, owner: SocketOwner, handle: u64, request_id: u64, response: &[u8]) -> (r: Result<usize, SocketError>)
        requires
            old(self).wf(),
        ensures
            final(self).wf(),
            by_handle(old(self)@, final(self)@, owner, handle, r, |e: EntryModel| step_complete_udp_send(e, request_id, response@)),
    {
        let slot = match self.slot_for(owner, handle) {
            Ok(s) => s,
            Err(err) => return Err(err),
        };
        let ghost before = self@;
        let mut e = self.take(slot);
        let r = if e.protocol != SocketProtocol::Udp || e.state != SocketState::Established
            || e.in_flight_request != request_id || e.in_flight_send == 0 {
            Err(SocketError::InvalidState)
        } else {
            let result = push_bytes(&mut e.receive, response);
            e.in_flight_request = 0;
            e.in_flight_send = 0;
            if result.is_err() {
                e.state = SocketState::Failed;
            }
            result
        };
        self.put(slot, e, Ghost(before));
        r
    }

    pub fn fail_udp_send(&mut self, owner: SocketOwner, handle: u64, request_id: u64) -> (r: Result<(), SocketError>)
        requires
            old(self).wf(),
        ensures
            final(self).wf(),
            by_handle(old(self)@, final(self)@, owner, handle, r, |e: EntryModel| step_fail_udp_send(e, request_id)),
    {
        let slot = match self.slot_for(owner, handle) {
            Ok(s) => s,
            Err(err) => return Err(err),
        };
        let ghost before = self@;
        let mut e = self.take(slot);
        let r = if e.protocol != SocketProtocol::Udp || e.in_flight_request != request_id || e.in_flight_send
            == 0 {
            Err(SocketError::InvalidState)
        } else {
            e.in_flight_request = 0;
            e.in_flight_send = 0;
            e.state = SocketState::Failed;
            Ok(())
        };
        self.put(slot, e, Ghost(before));
        r
    }

    pub fn take_send(&mut self, owner: SocketOwner, handle: u64, output: &mut [u8]) -> (r: Result<usize, SocketError>)
        requires
            old(self).wf(),
        ensures
            final(self).wf(),
            by_handle(old(self)@, final(self)@, owner, handle, r, |e: EntryModel| step_take_send(e, old(output)@)),
            popped_out(old(self)@, owner, handle, |e: EntryModel| true, true, old(output)@, final(output)@),
    {
        let slot = match self.slot_for(owner, handle) {
            Ok(s) => s,
            Err(err) => return Err(err),
        };
        let ghost before = self@;
        let mut e = self.take(slot);
        let r = pop_bytes(&mut e.send, output);
        self.put(slot, e, Ghost(before));
        r
    }

    pub fn push_receive(&mut self, owner: SocketOwner, handle: u64, bytes: &[u8]) -> (r: Result<usize, SocketError>)
        requires
            old(self).wf(),
        ensures
            final(self).wf(),
            by_handle(old(self)@, final(self)@, owner, handle, r, |e: EntryModel| step_push_receive(e, bytes@)),
    {
        let slot = match self.slot_for(owner, handle) {
            Ok(s) => s,
            Err(err) => return Err(err),
        };
        let ghost before = self@;
        let mut e = self.take(slot);
        let r = if !(e.state == SocketState::Established || e.state == SocketState::WriteClosed) {
            Err(SocketError::InvalidState)
        } else {
            push_bytes(&mut e.receive, bytes)
        };
        self.put(slot, e, Ghost(before));
        r
    }

    pub fn receive(&mut self, owner: SocketOwner, handle: u64, output: &mut [u8]) -> (r: Result<usize, SocketError>)
        requires
            old(self).wf(),
        ensures
            final(self).wf(),
            by_handle(old(self)@, final(self)@, owner, handle, r, |e: EntryModel| step_receive(e, old(output)@)),
            popped_out(old(self)@, owner, handle, |e: EntryModel| may_receive(e), false, old(output)@, final(output)@),
    {
        let slot = match self.slot_for(owner, handle) {
            Ok(s) => s,
            Err(err) => return Err(err),
        };
        let ghost before = self@;
        let mut e = self.take(slot);
        let r = if e.state == SocketState::Open || e.state == SocketState::Connecting {
            Err(SocketError::WouldBlock)
        } else {
            pop_bytes(&mut e.receive, output)
        };
        self.put(slot, e, Ghost(before));
        r
    }

    pub fn shutdown(&mut self, owner: SocketOwner, handle: u64, read: bool, write: bool) -> (r: Result<(), SocketError>)
        requires
            old(self).wf(),
        ensures
            final(self).wf(),
            !read && !write ==> r == Err::<(), SocketError>(SocketError::InvalidState) && final(self)@ == old(self)@,
            read || write ==> by_handle(old(self)@, final(self)@, owner, handle, r, |e: EntryModel| step_shutdown(e, read, write)),
    {
        if !read && !write {
            return Err(SocketError::InvalidState);
        }
        let slot = match self.slot_for(owner, handle) {
            Ok(s) => s,
            Err(err) => return Err(err),
        };
        let ghost before = self@;
        let mut e = self.take(slot);
        let state = e.state;
        let r = if state == SocketState::Closed || state == SocketState::Failed || state == SocketState::Bound
            || state == SocketState::Listening {
            Err(SocketError::InvalidState)
        } else if e.server_peer.is_some() && write && (e.send.len() != 0 || e.in_flight_send != 0) {
            Err(SocketError::WouldBlock)
        } else if e.server_peer.is_some() && write {
            if read {
                e.receive = Vec::new();
            }
            e.send = Vec::new();
            e.state = SocketState::WriteClosed;
            Ok(())
        } else {
            if read {
                e.receive = Vec::new();
            }
            if write {
                e.send = Vec::new();
                e.in_flight_request = 0;
                e.in_flight_send = 0;
            }
            e.state = if (read && write) || (read && !write && state == SocketState::WriteClosed) || (!read
                && write && state == SocketState::ReadClosed) {
                SocketState::Closed
            } else if read {
                SocketState::ReadClosed
            } else {
                SocketState::WriteClosed
            };
            Ok(())
        };
        self.put(slot, e, Ghost(before));
        r
    }

    pub fn status(&self, owner: SocketOwner, handle: u64) -> (r: Result<SocketStatus, SocketError>)
        requires
            self.wf(),
        ensures
            r == read_by_handle(self@, owner, handle, |e: EntryModel| Ok::<SocketStatus, SocketError>(status_of(e))),
    {
        let slot = match self.slot_for(owner, handle) {
            Ok(s) => s,
            Err(err) => return Err(err),
        };
        match &self.entries[slot] {
            None => Err(SocketError::InvalidHandle),
            Some(e) => {
                proof {
                    assert(self@.entries[slot as int] == entry_view(self.entries@[slot as int]));
                }
                Ok(e.status())
            },
        }
    }

    pub fn remote(&self, owner: SocketOwner, handle: u64) -> (r: Result<(u32, u16), SocketError>)
        requires
            self.wf(),
        ensures
            r == read_by_handle(self@, owner, handle, |e: EntryModel| Ok::<(u32, u16), SocketError>((e.target, e.port))),
    {
        let slot = match self.slot_for(owner, handle) {
            Ok(s) => s,
            Err(err) => return Err(err),
        };
        match &self.entries[slot] {
            None => Err(SocketError::InvalidHandle),
            Some(e) => {
                proof {
                    assert(self@.entries[slot as int] == entry_view(self.entries@[slot as int]));
                }
                Ok((e.target, e.port))
            },
        }
    }

    /// The local port of the socket named by `handle`.
    pub fn local_port(&self, owner: SocketOwner, handle: u64) -> (r: Result<u16, SocketError>)
        requires
            self.wf(),
        ensures
            r == read_by_handle(self@, owner, handle, |e: EntryModel| Ok::<u16, SocketError>(e.local_port)),
    {
        let slot = match self.slot_for(owner, handle) {
            Ok(s) => s,
            Err(err) => return Err(err),
        };
        match &self.entries[slot] {
            None => Err(SocketError::InvalidHandle),
            Some(e) => {
                proof {
                    assert(self@.entries[slot as int] == entry_view(self.entries@[slot as int]));
                }
                Ok(e.local_port)
            },
        }
    }

    pub fn owns_local_port(&self, local_port: u16) -> (r: bool)
        ensures
            r == (first_where(self@.entries, holds_port(local_port), 0) is Some),
    {
        let mut i: usize = 0;
        while i < self.entries.len()
            invariant
                i <= self.entries@.len(),
                self@.entries.len() == self.entries@.len(),
                first_where(self@.entries, holds_port(local_port), 0) == first_where(self@.entries, holds_port(local_port), i as int),
            decreases self.entries@.len() - i,
        {
            proof {
                assert(self@.entries[i as int] == entry_view(self.entries@[i as int]));
            }
            match &self.entries[i] {
                Some(e) => {
                    if e.protocol == SocketProtocol::TcpStream && e.local_port == local_port && (e.state
                        == SocketState::Bound || e.state == SocketState::Listening) {
                        return true;
                    }
                },
                None => {},
            }
            i += 1;
        }
        false
    }

    pub fn listener_handle(&self, local_port: u16) -> (r: Option<u64>)
        ensures
            r == match first_where(self@.entries, listens_on(local_port), 0) {
                Some(e) => Some(e.handle),
                None => None,
            },
    {
        let mut i: usize = 0;
        while i < self.entries.len()
            invariant
                i <= self.entries@.len(),
                self@.entries.len() == self.entries@.len(),
                first_where(self@.entries, listens_on(local_port), 0) == first_where(self@.entries, listens_on(local_port), i as int),
            decreases self.entries@.len() - i,
        {
            proof {
                assert(self@.entries[i as int] == entry_view(self.entries@[i as int]));
            }
            match &self.entries[i] {
                Some(e) => {
                    if e.protocol == SocketProtocol::TcpStream && e.state == SocketState::Listening
                        && e.local_port == local_port {
                        return Some(e.handle);
                    }
                },
                None => {},
            }
            i += 1;
        }
        None
    }

    pub fn pending_udp_handle(&self, owner: SocketOwner) -> (r: Option<u64>)
        ensures
            r == match first_where(self@.entries, udp_pending(owner), 0) {
                Some(e) => Some(e.handle),
                None => None,
            },
    {
        let mut i: usize = 0;
        while i < self.entries.len()
            invariant
                i <= self.entries@.len(),
                self@.entries.len() == self.entries@.len(),
                first_where(self@.entries, udp_pending(owner), 0) == first_where(self@.entries, udp_pending(owner), i as int),
            decreases self.entries@.len() - i,
        {
            proof {
                assert(self@.entries[i as int] == entry_view(self.entries@[i as int]));
            }
            match &self.entries[i] {
                Some(e) => {
                    if e.owner == owner && e.protocol == SocketProtocol::Udp && e.state
                        == SocketState::Established && e.send.len() != 0 && e.in_flight_send == 0 {
                        return Some(e.handle);
                    }
                },
                None => {},
            }
            i += 1;
        }
        None
    }

    pub fn pending_transport(&self, owner: SocketOwner) -> (r: Option<(u64, SocketProtocol)>)
        ensures
            r == match first_where(self@.entries, transport_pending(owner), 0) {
                Some(e) => Some((e.handle, e.protocol)),
                None => None,
            },
    {
        let mut i: usize = 0;
        while i < self.entries.len()
            invariant
                i <= self.entries@.len(),
                self@.entries.len() == self.entries@.len(),
                first_where(self@.entries, transport_pending(owner), 0) == first_where(self@.entries, transport_pending(owner), i as int),
            decreases self.entries@.len() - i,
        {
            proof {
                assert(self@.entries[i as int] == entry_view(self.entries@[i as int]));
            }
            match &self.entries[i] {
                Some(e) => {
                    if e.owner == owner && e.server_peer.is_none() && (e.state == SocketState::Connecting
                        || e.state == SocketState::Established) && e.send.len() != 0 && e.in_flight_send
                        == 0 {
                        return Some((e.handle, e.protocol));
                    }
                },
                None => {},
            }
            i += 1;
        }
        None
    }

    pub fn server_handle(&self, peer: TcpServerPeer) -> (r: Option<u64>)
        ensures
            r == match first_where(self@.entries, serves(peer), 0) {
                Some(e) => Some(e.handle),
                None => None,
            },
    {
        let mut i: usize = 0;
        while i < self.entries.len()
            invariant
                i <= self.entries@.len(),
                self@.entries.len() == self.entries@.len(),
                first_where(self@.entries, serves(peer), 0) == first_where(self@.entries, serves(peer), i as int),
            decreases self.entries@.len() - i,
        {
            proof {
                assert(self@.entries[i as int] == entry_view(self.entries@[i as int]));
            }
            match &self.entries[i] {
                Some(e) => {
                    if e.protocol == SocketProtocol::TcpStream && peer_is(&e.server_peer, &peer) && (e.state
                        == SocketState::Established || e.state == SocketState::ReadClosed || e.state
                        == SocketState::WriteClosed || e.state == SocketState::Closed) {
                        return Some(e.handle);
                    }
                },
                None => {},
            }
            i += 1;
        }
        None
    }

    pub fn len_owner(&self, owner: SocketOwner) -> (r: usize)
        requires
            self.wf(),
        ensures
            r == count_where(self@.entries, owned_by(owner), 0),
    {
        let mut i: usize = 0;
        let mut n: usize = 0;
        while i < self.entries.len()
            invariant
                i <= self.entries@.len(),
                self.entries@.len() == SOCKET_CAPACITY,
                self@.entries.len() == self.entries@.len(),
                n <= i,
                n + count_where(self@.entries, owned_by(owner), i as int) == count_where(self@.entries, owned_by(owner), 0),
            decreases self.entries@.len() - i,
        {
            proof {
                assert(self@.entries[i as int] == entry_view(self.entries@[i as int]));
            }
            match &self.entries[i] {
                Some(e) => {
                    if e.owner == owner {
                        n += 1;
                    }
                },
                None => {},
            }
            i += 1;
        }
        n
    }

    pub fn handles(&self, owner: SocketOwner) -> (r: Vec<u64>)
        ensures
            r@ == handles_of(self@.entries, owner, 0),
    {
        let mut v: Vec<u64> = Vec::new();
        let mut i: usize = 0;
        while i < self.entries.len()
            invariant
                i <= self.entries@.len(),
                self@.entries.len() == self.entries@.len(),
                v@ + handles_of(self@.entries, owner, i as int) == handles_of(self@.entries, owner, 0),
            decreases self.entries@.len() - i,
        {
            proof {
                assert(self@.entries[i as int] == entry_view(self.entries@[i as int]));
            }
            match &self.entries[i] {
                Some(e) => {
                    if e.owner == owner {
                        v.push(e.handle);
                        assert(v@ + handles_of(self@.entries, owner, i + 1) =~= handles_of(self@.entries, owner, 0));
                    }
                },
                None => {},
            }
            i += 1;
        }
        assert(v@ =~= handles_of(self@.entries, owner, 0));
        v
    }

    /// Closes every socket of `owner`, as when its process exits; the number
    /// closed.
    pub fn close_owner(&mut self, owner: SocketOwner) -> (r: usize)
        requires
            old(self).wf(),
        ensures
            final(self).wf(),
            final(self)@.entries == without_owner(old(self)@.entries, owner),
            final(self)@.next_generation == old(self)@.next_generation,
            r == count_where(old(self)@.entries, owned_by(owner), 0),
    {
        let mut i: usize = 0;
        let mut closed: usize = 0;
        while i < SOCKET_CAPACITY
            invariant
                self.wf(),
                i <= SOCKET_CAPACITY,
                closed <= i,
                self@.next_generation == old(self)@.next_generation,
                self@.entries.len() == SOCKET_CAPACITY,
                old(self)@.entries.len() == SOCKET_CAPACITY,
                forall|j: int| 0 <= j < i ==> #[trigger] self@.entries[j] == without_owner(old(self)@.entries, owner)[j],
                forall|j: int| i <= j < SOCKET_CAPACITY ==> #[trigger] self@.entries[j] == old(self)@.entries[j],
                closed + count_where(old(self)@.entries, owned_by(owner), i as int) == count_where(old(self)@.entries, owned_by(owner), 0),
            decreases SOCKET_CAPACITY - i,
        {
            proof {
                assert(self@.entries[i as int] == entry_view(self.entries@[i as int]));
                assert(self@.entries[i as int] == old(self)@.entries[i as int]);
            }
            let owned = match &self.entries[i] {
                Some(e) => e.owner == owner,
                None => false,
            };
            if owned {
                let _e = self.take(i);
                closed += 1;
            }
            i += 1;
        }
        assert(self@.entries =~= without_owner(old(self)@.entries, owner));
        closed
    }

    pub fn accept(&mut self, owner: SocketOwner, handle: u64) -> (r: Result<u64, SocketError>)
        requires
            old(self).wf(),
        ensures
            final(self).wf(),
            (final(self)@, r) == spec_accept(old(self)@, owner, handle),
    {
        let mut free: usize = 0;
        while free < SOCKET_CAPACITY && self.entries[free].is_some()
            invariant
                self.wf(),
                free <= SOCKET_CAPACITY,
                first_free(self@.entries, 0) == first_free(self@.entries, free as int),
            decreases SOCKET_CAPACITY - free,
        {
            proof {
                assert(self@.entries[free as int] == entry_view(self.entries@[free as int]));
            }
            free += 1;
        }
        if free == SOCKET_CAPACITY {
            return Err(SocketError::Capacity);
        }
        proof {
            assert(self@.entries[free as int] == entry_view(self.entries@[free as int]));
        }
        let listener_slot = match self.slot_for(owner, handle) {
            Ok(s) => s,
            Err(err) => return Err(err),
        };
        proof {
            assert(self@.entries[listener_slot as int] == entry_view(self.entries@[listener_slot as int]));
        }
        let (connection, local_port) = match &self.entries[listener_slot] {
            None => return Err(SocketError::InvalidHandle),
            Some(l) => {
                if l.state != SocketState::Listening || l.backlog.len() == 0 {
                    return Err(SocketError::WouldBlock);
                }
                (l.backlog[0], l.local_port)
            },
        };
        let ghost start = self@;
        let accepted = match self.open(owner, SocketProtocol::TcpStream) {
            Ok(h) => h,
            Err(err) => return Err(err),
        };
        let ghost opened = self@;
        proof {
            assert(opened.entries[listener_slot as int] == start.entries[listener_slot as int]);
        }
        let mut l = self.take(listener_slot);
        let ghost old_backlog = l.backlog@;
        l.backlog.remove(0);
        assert(l.backlog@ =~= old_backlog.subrange(1, old_backlog.len() as int));
        self.put(listener_slot, l, Ghost(opened));
        let ghost moved = self@;
        proof {
            assert(moved.entries[free as int] == opened.entries[free as int]);
        }
        let mut c = self.take(free);
        c.target = connection.target;
        c.port = connection.remote_port;
        c.local_port = local_port;
        c.server_peer = Some(connection);
        c.state = SocketState::Established;
        self.put(free, c, Ghost(moved));
        Ok(accepted)
    }
}

/// Whether no socket set holds `local_port` for a listener.
pub fn local_port_is_available(socket_sets: &[&SocketSet], local_port: u16) -> (r: bool)
    ensures
        r == forall|k: int| 0 <= k < socket_sets@.len() ==> (#[trigger] first_where(
            socket_sets@[k]@.entries,
            holds_port(local_port),
            0,
        )) is None,
{
    let mut k: usize = 0;
    while k < socket_sets.len()
        invariant
            k <= socket_sets@.len(),
            forall|j: int| 0 <= j < k ==> (#[trigger] first_where(socket_sets@[j]@.entries, holds_port(local_port), 0)) is None,
        decreases socket_sets@.len() - k,
    {
        if socket_sets[k].owns_local_port(local_port) {
            return false;
        }
        k += 1;
    }
    true
}

impl Default for SocketSet {
    fn default() -> (s: SocketSet)
        ensures
            s.wf(),
            s@.entries == seq![None::<EntryModel>, None, None, None],
            s@.next_generation == 1,
    {
        SocketSet::new()
    }
}


/// A handle carries its slot and its generation: both can be read back.
pub proof fn lemma_handle_fields(owner: SocketOwner, generation: u64, slot: int)
    requires
        generation <= SOCKET_GENERATION_MAX,
        0 <= slot < SOCKET_CAPACITY,
    ensures
        0 < spec_socket_handle(owner, generation, slot) <= u64::MAX,
        spec_socket_slot(spec_socket_handle(owner, generation, slot) as u64) == Some(slot),
        (spec_socket_handle(owner, generation, slot) / 256) % 65536 == generation,
{
    let h = spec_socket_handle(owner, generation, slot);
    let a: int = (owner.slot % 16) as int;
    let b: int = (owner.incarnation % 0x1000_0000) as int;
    let hi = 0xe7 * 0x1_0000_0000_0000 + a * 0x1000_0000_0000 + b * 0x1_0000 + generation;
    assert(h == hi * 256 + (slot + 1));
    vstd::arithmetic::div_mod::lemma_fundamental_div_mod_converse(h, 256, hi, slot + 1);
    let top = 0xe7 * 0x1_0000_0000 + a * 0x1000_0000 + b;
    assert(hi == top * 65536 + generation);
    vstd::arithmetic::div_mod::lemma_fundamental_div_mod_converse(hi, 65536, top, generation as int);
    let rest = a * 0x10_0000_0000_0000 + b * 0x100_0000 + generation * 256 + slot + 1;
    assert(0 <= a < 16 && 0 <= b < 0x1000_0000);
    assert(0 < rest < 0x100_0000_0000_0000);
    assert(h == 0xe7 * 0x100_0000_0000_0000 + rest);
    vstd::arithmetic::div_mod::lemma_fundamental_div_mod_converse(h, 0x100_0000_0000_0000, 0xe7, rest);
}

/// Handles are generation-safe: once a socket is closed, its handle names
/// no socket again, not even one opened afterwards in the same slot.
pub proof fn lemma_closed_handle_stays_invalid(
    m: SocketsModel,
    owner: SocketOwner,
    handle: u64,
    next_owner: SocketOwner,
    protocol: SocketProtocol,
)
    requires
        sockets_wf(m),
        find(m, owner, handle) is Some,
    ensures
        find(spec_close(m, owner, handle).0, owner, handle) is None,
        find(spec_open(spec_close(m, owner, handle).0, next_owner, protocol).0, owner, handle) is None,
{
    let i = find(m, owner, handle)->0;
    let e = m.entries[i]->0;
    let m1 = spec_close(m, owner, handle).0;
    let m2 = spec_open(m1, next_owner, protocol).0;
    assert(entry_wf(e, i, m.next_generation));
    lemma_handle_fields(e.owner, e.generation, i);
    if spec_open(m1, next_owner, protocol).1 is Ok {
        let j = first_free(m1.entries, 0)->0;
        lemma_first_free_bounds(m1.entries, 0);
        if j == i {
            lemma_handle_fields(next_owner, m1.next_generation, i);
            assert(m2.entries[i]->0.handle != handle);
        } else {
            assert(m2.entries[i] == m1.entries[i]);
        }
    }
}

proof fn lemma_first_free_bounds(s: Seq<Option<EntryModel>>, i: int)
    requires
        0 <= i,
    ensures
        first_free(s, i) is Some ==> i <= first_free(s, i)->0 < s.len() && s[first_free(s, i)->0] is None,
    decreases s.len() - i,
{
    if i < s.len() && s[i] is Some {
        lemma_first_free_bounds(s, i + 1);
    }
}

/// Handles are owner-scoped: a handle valid for one owner is invalid for
/// every other.
pub proof fn lemma_handles_are_owner_scoped(m: SocketsModel, owner: SocketOwner, other: SocketOwner, handle: u64)
    requires
        owner != other,
        find(m, owner, handle) is Some,
    ensures
        find(m, other, handle) is None,
{
}

/// Reading is lossless: the bytes handed out followed by those still
/// queued are exactly the bytes that were queued.
pub proof fn lemma_pop_is_lossless(q: Seq<u8>, output: Seq<u8>)
    requires
        q.len() <= SOCKET_BUFFER_CAPACITY,
        queue_pop(q, output).2 is Ok,
    ensures
        q == queue_pop(q, output).1.subrange(0, queue_pop(q, output).2->Ok_0 as int) + queue_pop(q, output).0,
{
    let n = queue_pop(q, output).2->Ok_0;
    let k: int = if q.len() < output.len() {
        q.len() as int
    } else {
        output.len() as int
    };
    assert(n == k);
    let out = q.subrange(0, k) + output.subrange(k, output.len() as int);
    assert(queue_pop(q, output).1 == out);
    assert(out.subrange(0, k) =~= q.subrange(0, k));
    assert(q =~= q.subrange(0, k) + q.subrange(k, q.len() as int));
}

/// Owner exit reclaims everything: no socket of the owner is left.
pub proof fn lemma_owner_exit_reclaims_everything(s: Seq<Option<EntryModel>>, owner: SocketOwner, i: int)
    requires
        0 <= i,
    ensures
        count_where(without_owner(s, owner), owned_by(owner), i) == 0,
    decreases s.len() - i,
{
    if i < s.len() {
        lemma_owner_exit_reclaims_everything(s, owner, i + 1);
    }
}

/// Received bytes are queued on a socket that can still read: one that is
/// established, or whose write side alone is shut. Non-empty bytes that fit
/// the receive buffer are appended whole, their count is returned, and
/// nothing else about the socket changes.
pub proof fn lemma_push_receive_while_readable(e: EntryModel, bytes: Seq<u8>)
    requires
        e.state == SocketState::Established || e.state == SocketState::WriteClosed,
        0 < bytes.len(),
        e.receive.len() + bytes.len() <= SOCKET_BUFFER_CAPACITY,
    ensures
        step_push_receive(e, bytes).1 == Ok::<usize, SocketError>(bytes.len() as usize),
        step_push_receive(e, bytes).0 == (EntryModel { receive: e.receive + bytes, ..e }),
{
}

/// Shutting the write side does not change what receiving does: a
/// write-closed socket takes received bytes exactly as an established one.
pub proof fn lemma_push_receive_ignores_write_shutdown(e: EntryModel, bytes: Seq<u8>)
    ensures
        step_push_receive(EntryModel { state: SocketState::WriteClosed, ..e }, bytes).1 == step_push_receive(
            EntryModel { state: SocketState::Established, ..e },
            bytes,
        ).1,
        step_push_receive(EntryModel { state: SocketState::WriteClosed, ..e }, bytes).0.receive == step_push_receive(
            EntryModel { state: SocketState::Established, ..e },
            bytes,
        ).0.receive,
{
}

/// A socket that cannot read any more, or cannot yet, refuses received
/// bytes and stays as it was.
pub proof fn lemma_push_receive_refused(e: EntryModel, bytes: Seq<u8>)
    requires
        !(e.state == SocketState::Established || e.state == SocketState::WriteClosed),
    ensures
        step_push_receive(e, bytes) == (e, Err::<usize, SocketError>(SocketError::InvalidState)),
{
}

} // verus!
