//! The IPv4 stack's protocol decisions: DHCP messages, TCP sequence
//! arithmetic and the passive TCP stream's handling of each segment.
use vstd::prelude::*;
use crate::net::spec_checksum;
use crate::socket::{TcpServerPeer, SOCKET_BUFFER_CAPACITY};
use crate::wire::be16;

verus! {

/// A stream buffer holds one user socket buffer.
pub const PASSIVE_TCP_STREAM_BUFFER_CAPACITY: usize = SOCKET_BUFFER_CAPACITY;
pub const PASSIVE_TCP_MSS: usize = 128;
pub const PASSIVE_TCP_MAX_CWND: usize = 1024;
/// The receive buffer and one reorder slot.
pub const PASSIVE_TCP_RECEIVE_CAPACITY: usize = 256;
pub const PASSIVE_TCP_RETRY_TICKS: u64 = 25;
pub const PASSIVE_TCP_STREAM_IDLE_TICKS: u64 = 200;
pub const PASSIVE_TCP_HANDSHAKE_SLOTS: usize = 4;
pub const PASSIVE_TCP_STREAM_SLOTS: usize = 4;
pub const ASYNC_BUFFER_CAPACITY: usize = 128;

pub enum AsyncUdpProgress {
    Idle,
    Pending,
    Complete { bytes: [u8; 128], len: usize },
    Failed,
}

pub enum AsyncTcpProgress {
    Idle,
    Pending,
    Complete { bytes: [u8; 128], len: usize },
    Failed,
}

#[derive(Clone, Copy, Debug, PartialEq, Eq)]
pub struct PassiveTcpSyn {
    pub target: u32,
    pub remote_port: u16,
    pub local_port: u16,
    pub remote_sequence: u32,
    pub source_mac: [u8; 6],
}

/// At most one bounded data segment plus one FIN that a peer sends between
/// its final handshake acknowledgment and the moment the established
/// stream slot is attached; the stream slot is seeded with them.
#[derive(Clone, Copy)]
pub struct EarlyStreamData {
    pub bytes: [u8; 128],
    pub len: usize,
    pub fin: bool,
    pub peer_window: u16,
}

impl EarlyStreamData {
    pub fn empty() -> (e: Self)
        ensures
            e.bytes@ == Seq::new(128, |i: int| 0u8),
            e.len == 0,
            !e.fin,
            e.peer_window == u16::MAX,
    {
        let e = EarlyStreamData { bytes: [0u8; 128], len: 0, fin: false, peer_window: u16::MAX };
        assert(e.bytes@ =~= Seq::new(128, |i: int| 0u8));
        e
    }
}

#[derive(Clone, Copy, Debug, PartialEq, Eq, Structural)]
pub struct PassiveTcpFailure {
    pub target: u32,
    pub remote_port: u16,
    pub local_port: u16,
}

pub enum PassiveTcpProgress {
    Idle,
    Syn(PassiveTcpSyn),
    Pending,
    Established(TcpServerPeer, EarlyStreamData),
    Failed(PassiveTcpFailure),
}

pub enum PassiveTcpStreamProgress {
    Idle,
    Pending,
    Received { peer: TcpServerPeer, bytes: [u8; 128], len: usize },
    SendComplete(TcpServerPeer),
    PeerClosed(TcpServerPeer),
    Closed(TcpServerPeer),
    Reset(TcpServerPeer),
    Failed(TcpServerPeer),
}

/// `value - reference` modulo 2^32.
pub open spec fn seq_distance(value: u32, reference: u32) -> int {
    (value - reference) % 0x1_0000_0000
}

/// Whether `value` lies strictly after `reference` in sequence space: the
/// difference, read as a signed 32-bit number, is positive.
pub open spec fn spec_sequence_after(value: u32, reference: u32) -> bool {
    0 < seq_distance(value, reference) < 0x8000_0000
}

pub fn sequence_after(value: u32, reference: u32) -> (r: bool)
    ensures
        r == spec_sequence_after(value, reference),
{
    let d = value.wrapping_sub(reference);
    d != 0 && d < 0x8000_0000
}

/// Whether `sequence` is acceptable for a receive window of `window`
/// bytes starting at `next`; a zero window accepts only `next` itself.
pub open spec fn spec_sequence_in_window(sequence: u32, next: u32, window: u16) -> bool {
    seq_distance(sequence, next) < if window == 0 { 1 } else { window as int }
}

pub fn sequence_in_window(sequence: u32, next: u32, window: u16) -> (r: bool)
    ensures
        r == spec_sequence_in_window(sequence, next, window),
{
    let limit: u32 = if window == 0 { 1 } else { window as u32 };
    sequence.wrapping_sub(next) < limit
}

/// The IPv4 address of four bytes, most significant first.
pub open spec fn address_value(a: Seq<u8>) -> int {
    a[0] * 0x100_0000 + a[1] * 0x1_0000 + a[2] * 0x100 + a[3]
}

pub fn address_from_bytes(a: [u8; 4]) -> (r: u32)
    ensures
        r == address_value(a@),
{
    a[0] as u32 * 0x100_0000 + a[1] as u32 * 0x1_0000 + a[2] as u32 * 0x100 + a[3] as u32
}

/// The IPv4 pseudo-header for a segment of `len` bytes.
pub open spec fn pseudo_header(source: Seq<u8>, destination: Seq<u8>, protocol: u8, len: int) -> Seq<u8> {
    source + destination + seq![0u8, protocol, (len / 256) as u8, (len % 256) as u8]
}

/// The TCP or UDP checksum over the IPv4 pseudo-header and `bytes`.
pub fn transport_checksum(source: [u8; 4], destination: [u8; 4], protocol: u8, bytes: &[u8]) -> (r: u16)
    requires
        bytes@.len() <= 1408,
    ensures
        r == spec_checksum(pseudo_header(source@, destination@, protocol, bytes@.len() as int) + bytes@),
{
    let n = bytes.len();
    let mut pseudo: Vec<u8> = Vec::new();
    pseudo.push(source[0]);
    pseudo.push(source[1]);
    pseudo.push(source[2]);
    pseudo.push(source[3]);
    pseudo.push(destination[0]);
    pseudo.push(destination[1]);
    pseudo.push(destination[2]);
    pseudo.push(destination[3]);
    pseudo.push(0);
    pseudo.push(protocol);
    pseudo.push((n / 256) as u8);
    pseudo.push((n % 256) as u8);
    let ghost header = pseudo@;
    assert(header =~= pseudo_header(source@, destination@, protocol, n as int));
    let mut i: usize = 0;
    while i < n
        invariant
            n == bytes@.len(),
            i <= n,
            pseudo@ == header + bytes@.subrange(0, i as int),
        decreases n - i,
    {
        pseudo.push(bytes[i]);
        i += 1;
        assert(pseudo@ =~= header + bytes@.subrange(0, i as int));
    }
    assert(bytes@.subrange(0, n as int) =~= bytes@);
    crate::net::checksum(pseudo.as_slice())
}


#[derive(Clone, Copy, Debug, PartialEq, Eq)]
pub struct DhcpConfig {
    pub address: [u8; 4],
    pub subnet: [u8; 4],
    pub gateway: [u8; 4],
    pub dns: [u8; 4],
    pub server: [u8; 4],
}

/// The DHCP magic cookie.
pub open spec fn dhcp_cookie() -> Seq<u8> {
    seq![99u8, 130, 83, 99]
}

/// What the options of an offer or acknowledgment set so far.
pub ghost struct DhcpScan {
    pub message_type: u8,
    pub subnet: Seq<u8>,
    pub gateway: Seq<u8>,
    pub dns: Seq<u8>,
    pub server: Seq<u8>,
}

/// One option applied: the message type, the subnet mask, the first router,
/// the first name server and the server identifier; others are ignored.
pub open spec fn dhcp_apply(st: DhcpScan, kind: u8, v: Seq<u8>) -> DhcpScan {
    if kind == 53 && v.len() == 1 {
        DhcpScan { message_type: v[0], ..st }
    } else if kind == 1 && v.len() == 4 {
        DhcpScan { subnet: v, ..st }
    } else if kind == 3 && v.len() >= 4 {
        DhcpScan { gateway: v.subrange(0, 4), ..st }
    } else if kind == 6 && v.len() >= 4 {
        DhcpScan { dns: v.subrange(0, 4), ..st }
    } else if kind == 54 && v.len() == 4 {
        DhcpScan { server: v, ..st }
    } else {
        st
    }
}

/// The options from `cursor` on: pad bytes are skipped and the end option
/// stops; `None` when an option's length byte or value overruns.
pub open spec fn dhcp_options(p: Seq<u8>, cursor: int, st: DhcpScan) -> Option<DhcpScan>
    decreases p.len() - cursor,
{
    if cursor >= p.len() || cursor < 0 {
        Some(st)
    } else {
        let kind = p[cursor];
        if kind == 255 {
            Some(st)
        } else if kind == 0 {
            dhcp_options(p, cursor + 1, st)
        } else if cursor + 1 >= p.len() {
            None
        } else {
            let end = cursor + 2 + p[cursor + 1];
            if end > p.len() {
                None
            } else {
                dhcp_options(p, end, dhcp_apply(st, kind, p.subrange(cursor + 2, end)))
            }
        }
    }
}

pub open spec fn zero4() -> Seq<u8> {
    seq![0u8, 0, 0, 0]
}

/// A reply to transaction `xid` of type `expected_type` that names an
/// address, a router, a name server and a server.
pub open spec fn spec_parse_dhcp(p: Seq<u8>, xid: u32, expected_type: u8) -> Option<DhcpScan> {
    if p.len() < 241 || p[0] != 2 || p.subrange(4, 8) != crate::wire::spec_be32_bytes(xid) || p.subrange(236, 240)
        != dhcp_cookie() {
        None
    } else {
        let init = DhcpScan {
            message_type: 0,
            subnet: seq![255u8, 255, 255, 0],
            gateway: zero4(),
            dns: zero4(),
            server: zero4(),
        };
        match dhcp_options(p, 240, init) {
            None => None,
            Some(st) => if st.message_type == expected_type && p.subrange(16, 20) != zero4() && st.gateway
                != zero4() && st.dns != zero4() && st.server != zero4() {
                Some(st)
            } else {
                None
            },
        }
    }
}

struct ScanState {
    message_type: u8,
    subnet: [u8; 4],
    gateway: [u8; 4],
    dns: [u8; 4],
    server: [u8; 4],
}

spec fn scan_model(s: ScanState) -> DhcpScan {
    DhcpScan { message_type: s.message_type, subnet: s.subnet@, gateway: s.gateway@, dns: s.dns@, server: s.server@ }
}

fn four(b: &[u8], at: usize) -> (r: [u8; 4])
    requires
        at + 4 <= b@.len(),
    ensures
        r@ == b@.subrange(at as int, at + 4),
{
    let r = [b[at], b[at + 1], b[at + 2], b[at + 3]];
    assert(r@ =~= b@.subrange(at as int, at + 4));
    r
}

fn is_zero4(a: &[u8; 4]) -> (r: bool)
    ensures
        r == (a@ == zero4()),
{
    let r = a[0] == 0 && a[1] == 0 && a[2] == 0 && a[3] == 0;
    proof {
        if r {
            assert(a@ =~= zero4());
        }
    }
    r
}

/// Reads a DHCP offer or acknowledgment for transaction `xid`.
#[verifier::spinoff_prover]
pub fn parse_dhcp(payload: &[u8], xid: u32, expected_type: u8) -> (r: Option<DhcpConfig>)
    ensures
        match (r, spec_parse_dhcp(payload@, xid, expected_type)) {
            (Some(c), Some(st)) => c.address@ == payload@.subrange(16, 20) && c.subnet@ == st.subnet
                && c.gateway@ == st.gateway && c.dns@ == st.dns && c.server@ == st.server,
            (None, None) => true,
            _ => false,
        },
{
    let n = payload.len();
    if n < 241 || payload[0] != 2 {
        return None;
    }
    let xid_bytes = crate::wire::be32_bytes(xid);
    if !crate::strings::bytes_equal(&payload[4..8], xid_bytes.as_slice()) || !crate::strings::bytes_equal(
        &payload[236..240],
        [99u8, 130, 83, 99].as_slice(),
    ) {
        proof {
            assert([99u8, 130, 83, 99]@ =~= dhcp_cookie());
        }
        return None;
    }
    proof {
        assert([99u8, 130, 83, 99]@ =~= dhcp_cookie());
    }
    let address = four(payload, 16);
    let mut st = ScanState {
        message_type: 0,
        subnet: [255, 255, 255, 0],
        gateway: [0; 4],
        dns: [0; 4],
        server: [0; 4],
    };
    let ghost init = scan_model(st);
    proof {
        assert(init.subnet =~= seq![255u8, 255, 255, 0]);
        assert(init.gateway =~= zero4());
        assert(init.dns =~= zero4());
        assert(init.server =~= zero4());
    }
    let ghost target = dhcp_options(payload@, 240, init);
    let mut cursor: usize = 240;
    loop
        invariant
            n == payload@.len(),
            240 <= cursor <= n,
            n >= 241,
            payload@[0] == 2,
            payload@.subrange(4, 8) == crate::wire::spec_be32_bytes(xid),
            payload@.subrange(236, 240) == dhcp_cookie(),
            target == dhcp_options(payload@, 240, init),
            init == (DhcpScan {
                message_type: 0,
                subnet: seq![255u8, 255, 255, 0],
                gateway: zero4(),
                dns: zero4(),
                server: zero4(),
            }),
            dhcp_options(payload@, cursor as int, scan_model(st)) == target,
        ensures
            target == Some(scan_model(st)),
        decreases n - cursor,
    {
        if cursor >= n {
            break;
        }
        let kind = payload[cursor];
        if kind == 255 {
            break;
        }
        if kind == 0 {
            cursor += 1;
            continue;
        }
        if cursor + 1 >= n {
            return None;
        }
        let len = payload[cursor + 1] as usize;
        let end = match (cursor + 2).checked_add(len) {
            None => return None,
            Some(e) => e,
        };
        if end > n {
            return None;
        }
        let ghost v = payload@.subrange(cursor + 2, end as int);
        if kind == 53 && len == 1 {
            st.message_type = payload[cursor + 2];
        } else if kind == 1 && len == 4 {
            st.subnet = four(payload, cursor + 2);
        } else if kind == 3 && len >= 4 {
            st.gateway = four(payload, cursor + 2);
            assert(v.subrange(0, 4) =~= payload@.subrange(cursor + 2, cursor + 6));
        } else if kind == 6 && len >= 4 {
            st.dns = four(payload, cursor + 2);
            assert(v.subrange(0, 4) =~= payload@.subrange(cursor + 2, cursor + 6));
        } else if kind == 54 && len == 4 {
            st.server = four(payload, cursor + 2);
        }
        cursor = end;
    }
    if st.message_type == expected_type && !is_zero4(&address) && !is_zero4(&st.gateway) && !is_zero4(&st.dns)
        && !is_zero4(&st.server) {
        Some(DhcpConfig { address, subnet: st.subnet, gateway: st.gateway, dns: st.dns, server: st.server })
    } else {
        None
    }
}


pub open spec fn zeros(n: int) -> Seq<u8> {
    Seq::new(n as nat, |i: int| 0u8)
}

/// Appends option `kind` with `value` at `cursor`; refused, with nothing
/// written, when it does not fit or the value is longer than 255 bytes.
pub fn push_option(output: &mut [u8], cursor: &mut usize, kind: u8, value: &[u8]) -> (r: Option<()>)
    ensures
        final(output)@.len() == old(output)@.len(),
        r is Some <==> (*old(cursor) + 2 + value@.len() <= old(output)@.len() && value@.len() <= 255),
        r is None ==> final(output)@ == old(output)@ && *final(cursor) == *old(cursor),
        r is Some ==> *final(cursor) == *old(cursor) + 2 + value@.len() && final(output)@ == old(output)@.subrange(
            0,
            *old(cursor) as int,
        ) + seq![kind, value@.len() as u8] + value@ + old(output)@.subrange(
            *old(cursor) + 2 + value@.len(),
            old(output)@.len() as int,
        ),
{
    let c = *cursor;
    let vlen = value.len();
    let olen = output.len();
    if vlen > 255 {
        return None;
    }
    let end = match c.checked_add(2 + vlen) {
        None => return None,
        Some(e) => e,
    };
    if end > olen {
        return None;
    }
    output[c] = kind;
    output[c + 1] = vlen as u8;
    let mut i: usize = 0;
    let ghost first = output@;
    while i < vlen
        invariant
            vlen == value@.len(),
            c + 2 + vlen == end,
            end <= output@.len(),
            output@.len() == first.len(),
            i <= vlen,
            output@ == first.subrange(0, c + 2) + value@.subrange(0, i as int) + first.subrange(c + 2 + i, first.len() as int),
        decreases vlen - i,
    {
        output[c + 2 + i] = value[i];
        i += 1;
        assert(output@ =~= first.subrange(0, c + 2) + value@.subrange(0, i as int) + first.subrange(c + 2 + i, first.len() as int));
    }
    assert(output@ =~= old(output)@.subrange(0, c as int) + seq![kind, vlen as u8] + value@ + old(output)@.subrange(
        end as int,
        old(output)@.len() as int,
    ));
    *cursor = end;
    Some(())
}

/// The fixed part of a client message: BOOTREQUEST over Ethernet with the
/// broadcast flag, the client hardware address and the magic cookie.
pub open spec fn dhcp_header(mac: Seq<u8>, xid: u32) -> Seq<u8> {
    seq![1u8, 1, 6, 0] + crate::wire::spec_be32_bytes(xid) + seq![0u8, 0, 0x80, 0] + zeros(16) + mac + zeros(202)
        + dhcp_cookie()
}

/// A client message: its type, the requested address and the server if
/// given, the parameter request list, and the end option.
pub open spec fn dhcp_message(mac: Seq<u8>, xid: u32, message_type: u8, requested: Option<Seq<u8>>, server: Option<Seq<u8>>) -> Seq<u8> {
    dhcp_header(mac, xid) + seq![53u8, 1, message_type] + match requested {
        Some(a) => seq![50u8, 4] + a,
        None => Seq::empty(),
    } + match server {
        Some(a) => seq![54u8, 4] + a,
        None => Seq::empty(),
    } + seq![55u8, 3, 1, 3, 6, 255]
}

proof fn lemma_append_on_zeros(built: Seq<u8>, opt: Seq<u8>, total: int)
    requires
        built.len() + opt.len() <= total,
    ensures
        (built + zeros(total - built.len())).subrange(0, built.len() as int) + opt + (built + zeros(total - built.len())).subrange(
            (built.len() + opt.len()) as int,
            total,
        ) == (built + opt) + zeros(total - built.len() - opt.len()),
{
    assert((built + zeros(total - built.len())).subrange(0, built.len() as int) + opt + (built + zeros(total - built.len())).subrange(
        (built.len() + opt.len()) as int,
        total,
    ) =~= (built + opt) + zeros(total - built.len() - opt.len()));
}

fn append(v: &mut Vec<u8>, bytes: &[u8])
    ensures
        final(v)@ == old(v)@ + bytes@,
{
    let mut i: usize = 0;
    while i < bytes.len()
        invariant
            i <= bytes@.len(),
            v@ == old(v)@ + bytes@.subrange(0, i as int),
        decreases bytes@.len() - i,
    {
        v.push(bytes[i]);
        i += 1;
        assert(v@ =~= old(v)@ + bytes@.subrange(0, i as int));
    }
    assert(bytes@.subrange(0, i as int) =~= bytes@);
}

fn append_zeros(v: &mut Vec<u8>, n: usize)
    ensures
        final(v)@ == old(v)@ + zeros(n as int),
{
    let mut i: usize = 0;
    while i < n
        invariant
            i <= n,
            v@ == old(v)@ + zeros(i as int),
        decreases n - i,
    {
        v.push(0);
        i += 1;
        assert(v@ =~= old(v)@ + zeros(i as int));
    }
}

/// Writes a client message into `output` and gives its length; the rest of
/// `output` is zero.
#[verifier::spinoff_prover]
pub fn build_dhcp(
    output: &mut [u8; 300],
    mac: [u8; 6],
    xid: u32,
    message_type: u8,
    requested: Option<[u8; 4]>,
    server: Option<[u8; 4]>,
) -> (r: Option<usize>)
    ensures
        ({
            let m = dhcp_message(mac@, xid, message_type, match requested {
                Some(a) => Some(a@),
                None => None,
            }, match server {
                Some(a) => Some(a@),
                None => None,
            });
            r == Some(m.len() as usize) && final(output)@ == m + zeros(300 - m.len())
        }),
{
    let mut m: Vec<u8> = Vec::new();
    append(&mut m, [1u8, 1, 6, 0].as_slice());
    let x = crate::wire::be32_bytes(xid);
    append(&mut m, x.as_slice());
    append(&mut m, [0u8, 0, 0x80, 0].as_slice());
    append_zeros(&mut m, 16);
    append(&mut m, mac.as_slice());
    append_zeros(&mut m, 202);
    append(&mut m, [99u8, 130, 83, 99].as_slice());
    proof {
        assert(m@ =~= dhcp_header(mac@, xid));
    }
    append(&mut m, [53u8, 1, message_type].as_slice());
    let ghost after_type = m@;
    match requested {
        Some(a) => {
            append(&mut m, [50u8, 4].as_slice());
            append(&mut m, a.as_slice());
        },
        None => {},
    }
    let ghost after_requested = m@;
    match server {
        Some(a) => {
            append(&mut m, [54u8, 4].as_slice());
            append(&mut m, a.as_slice());
        },
        None => {},
    }
    let ghost after_server = m@;
    append(&mut m, [55u8, 3, 1, 3, 6, 255].as_slice());
    let ghost msg = dhcp_message(mac@, xid, message_type, match requested {
        Some(a) => Some(a@),
        None => None,
    }, match server {
        Some(a) => Some(a@),
        None => None,
    });
    proof {
        assert(after_type =~= dhcp_header(mac@, xid) + seq![53u8, 1, message_type]);
        assert(after_requested =~= after_type + match requested {
            Some(a) => seq![50u8, 4] + a@,
            None => Seq::empty(),
        });
        assert(after_server =~= after_requested + match server {
            Some(a) => seq![54u8, 4] + a@,
            None => Seq::empty(),
        });
        assert(m@ =~= msg);
    }
    let len = m.len();
    let mut i: usize = 0;
    while i < 300
        invariant
            len == m@.len(),
            len <= 300,
            m@ == msg,
            i <= 300,
            output@.len() == 300,
            forall|j: int| 0 <= j < i ==> output@[j] == if j < len { m@[j] } else { 0u8 },
        decreases 300 - i,
    {
        output[i] = if i < len { m[i] } else { 0 };
        i += 1;
    }
    assert(output@ =~= msg + zeros(300 - msg.len()));
    Some(len)
}


/// Bytes a peer sent past the next expected sequence, held until the gap
/// before them closes.
pub struct DeferredSegment {
    pub sequence: u32,
    pub bytes: Vec<u8>,
    pub fin: bool,
    pub acknowledged: bool,
}

/// One established passive TCP stream.
pub struct StreamOperation {
    pub peer: TcpServerPeer,
    pub remote_sequence: u32,
    pub local_sequence: u32,
    pub receive: Vec<u8>,
    pub deferred: Option<DeferredSegment>,
    pub send: Vec<u8>,
    pub send_flight: usize,
    pub send_completed: bool,
    pub fin_sent: bool,
    pub fin_acked: bool,
    pub peer_fin: bool,
    pub peer_fin_pending: bool,
    pub reset: bool,
    pub failed: bool,
    pub attempts: usize,
    pub deadline: u64,
    pub sent_at: u64,
    pub rto_ticks: u64,
    pub peer_window: u16,
    pub window_sequence: u32,
    pub window_acknowledgment: u32,
    pub persist_deadline: u64,
    pub persist_attempts: usize,
    pub challenge_ack_tick: Option<u64>,
    pub congestion_window: usize,
    pub slow_start_threshold: usize,
    pub stream_received_bytes: u64,
    pub stream_sent_bytes: u64,
}

/// The stack-wide counters a segment can move.
#[derive(Clone, Copy, Debug, PartialEq, Eq, Structural)]
pub struct StreamStats {
    pub max_ack_latency: u64,
    pub max_cwnd: usize,
    pub max_stream_bytes: u64,
    pub payload_bytes: u64,
    pub reordered_segments: u64,
    pub max_buffered: usize,
}

/// A validated inbound TCP segment for one stream.
pub struct Segment {
    pub sequence: u32,
    pub acknowledgment: u32,
    pub flags: u8,
    pub window: u16,
    pub payload: Vec<u8>,
}

/// What a segment asks the stack to send back, built from the stream's
/// state after the segment: nothing, a bare acknowledgment, a reset of the
/// connection, or the acknowledgment that carries the receive window,
/// whose failure to send fails the stream.
#[derive(Clone, Copy, Debug, PartialEq, Eq, Structural)]
pub enum SegmentReply {
    Nothing,
    Ack,
    Reset,
    WindowAck,
}

pub ghost struct DeferredModel {
    pub sequence: u32,
    pub bytes: Seq<u8>,
    pub fin: bool,
    pub acknowledged: bool,
}

pub ghost struct StreamModel {
    pub peer: TcpServerPeer,
    pub remote_sequence: u32,
    pub local_sequence: u32,
    pub receive: Seq<u8>,
    pub deferred: Option<DeferredModel>,
    pub send: Seq<u8>,
    pub send_flight: usize,
    pub send_completed: bool,
    pub fin_sent: bool,
    pub fin_acked: bool,
    pub peer_fin: bool,
    pub peer_fin_pending: bool,
    pub reset: bool,
    pub failed: bool,
    pub attempts: usize,
    pub deadline: u64,
    pub sent_at: u64,
    pub rto_ticks: u64,
    pub peer_window: u16,
    pub window_sequence: u32,
    pub window_acknowledgment: u32,
    pub persist_deadline: u64,
    pub persist_attempts: usize,
    pub challenge_ack_tick: Option<u64>,
    pub congestion_window: usize,
    pub slow_start_threshold: usize,
    pub stream_received_bytes: u64,
    pub stream_sent_bytes: u64,
}

pub ghost struct SegmentModel {
    pub sequence: u32,
    pub acknowledgment: u32,
    pub flags: u8,
    pub window: u16,
    pub payload: Seq<u8>,
}

impl DeferredSegment {
    pub open spec fn view(&self) -> DeferredModel {
        DeferredModel { sequence: self.sequence, bytes: self.bytes@, fin: self.fin, acknowledged: self.acknowledged }
    }
}

impl Segment {
    pub open spec fn view(&self) -> SegmentModel {
        SegmentModel {
            sequence: self.sequence,
            acknowledgment: self.acknowledgment,
            flags: self.flags,
            window: self.window,
            payload: self.payload@,
        }
    }
}

impl StreamOperation {
    pub open spec fn view(&self) -> StreamModel {
        StreamModel {
            peer: self.peer,
            remote_sequence: self.remote_sequence,
            local_sequence: self.local_sequence,
            receive: self.receive@,
            deferred: match self.deferred {
                Some(d) => Some(d@),
                None => None,
            },
            send: self.send@,
            send_flight: self.send_flight,
            send_completed: self.send_completed,
            fin_sent: self.fin_sent,
            fin_acked: self.fin_acked,
            peer_fin: self.peer_fin,
            peer_fin_pending: self.peer_fin_pending,
            reset: self.reset,
            failed: self.failed,
            attempts: self.attempts,
            deadline: self.deadline,
            sent_at: self.sent_at,
            rto_ticks: self.rto_ticks,
            peer_window: self.peer_window,
            window_sequence: self.window_sequence,
            window_acknowledgment: self.window_acknowledgment,
            persist_deadline: self.persist_deadline,
            persist_attempts: self.persist_attempts,
            challenge_ack_tick: self.challenge_ack_tick,
            congestion_window: self.congestion_window,
            slow_start_threshold: self.slow_start_threshold,
            stream_received_bytes: self.stream_received_bytes,
            stream_sent_bytes: self.stream_sent_bytes,
        }
    }
}

/// A stream's buffers stay within their capacity, the bytes in flight
/// are a prefix of the send buffer, and the window probes are counted up
/// to three.
pub open spec fn stream_wf(op: StreamModel) -> bool {
    &&& op.persist_attempts <= 3
    &&& op.receive.len() <= PASSIVE_TCP_STREAM_BUFFER_CAPACITY
    &&& op.send.len() <= PASSIVE_TCP_STREAM_BUFFER_CAPACITY
    &&& op.send_flight <= op.send.len()
    &&& op.congestion_window <= PASSIVE_TCP_MAX_CWND
    &&& (op.deferred matches Some(d) ==> d.bytes.len() <= PASSIVE_TCP_STREAM_BUFFER_CAPACITY)
}

/// `a + b` modulo 2^32.
pub open spec fn wrap_add(a: u32, b: int) -> u32 {
    ((a + b) % 0x1_0000_0000) as u32
}

pub open spec fn sat_add(a: u64, b: int) -> u64 {
    if a + b > u64::MAX { u64::MAX } else { (a + b) as u64 }
}

pub open spec fn deferred_len(op: StreamModel) -> int {
    match op.deferred {
        Some(d) => d.bytes.len() as int,
        None => 0,
    }
}

/// The receive window: the room left in the receive buffer and the reorder
/// slot.
pub open spec fn spec_receive_window(op: StreamModel) -> u16 {
    let buffered = op.receive.len() + deferred_len(op);
    if buffered >= PASSIVE_TCP_RECEIVE_CAPACITY { 0 } else { (PASSIVE_TCP_RECEIVE_CAPACITY - buffered) as u16 }
}

/// Receiving bytes never postpones a pending data or FIN retransmission.
#[verifier::opaque]
pub open spec fn refreshed(op: StreamModel, tick: u64) -> StreamModel {
    if op.send_flight == 0 && !(op.fin_sent && !op.fin_acked) {
        StreamModel { deadline: sat_add(tick, PASSIVE_TCP_STREAM_IDLE_TICKS as int), ..op }
    } else {
        op
    }
}

pub open spec fn has_flag(flags: u8, mask: u8) -> bool {
    flags & mask != 0
}

/// Refreshing the idle deadline changes nothing else.
pub proof fn lemma_refreshed_frame(op: StreamModel, tick: u64)
    ensures
        refreshed(op, tick) == (StreamModel { deadline: refreshed(op, tick).deadline, ..op }),
{
    reveal(refreshed);
}

/// The retransmission timeout after a clean round-trip sample.
pub open spec fn next_rto(rto: u64, sample: u64) -> u64 {
    let mixed = (sat_add(if rto * 3 > u64::MAX { u64::MAX } else { (rto * 3) as u64 }, if sample * 2 > u64::MAX {
        u64::MAX as int
    } else {
        sample * 2
    }) / 4) as u64;
    if mixed < 4 { 4 } else if mixed > PASSIVE_TCP_RETRY_TICKS * 2 { (PASSIVE_TCP_RETRY_TICKS * 2) as u64 } else { mixed }
}

/// The congestion window after an acknowledgment of new data: a segment
/// per acknowledgment in slow start, then about one segment per window.
pub open spec fn next_cwnd(cwnd: usize, ssthresh: usize) -> usize {
    let step = if cwnd == 0 { 16384int } else { 16384int / (cwnd as int) };
    let step = if step < 1 { 1 } else { step };
    let grown = if cwnd < ssthresh { cwnd + PASSIVE_TCP_MSS } else { cwnd + step };
    (if grown > PASSIVE_TCP_MAX_CWND { PASSIVE_TCP_MAX_CWND as int } else { grown }) as usize
}

pub open spec fn max_u64(a: u64, b: u64) -> u64 {
    if a < b { b } else { a }
}

/// The stream after an acknowledgment of all bytes in flight: a clean
/// round-trip sample (Karn's rule: only from a first transmission) updates
/// the timeout, the window grows and the acknowledged bytes leave.
#[verifier::opaque]
pub open spec fn acked_data(op: StreamModel, seg: SegmentModel, tick: u64, st: StreamStats) -> (StreamModel, StreamStats) {
    let elapsed: u64 = if tick < op.sent_at { 0 } else { (tick - op.sent_at) as u64 };
    let sample: u64 = if elapsed < 1 { 1 } else { elapsed };
    let cwnd = next_cwnd(op.congestion_window, op.slow_start_threshold);
    let sent = sat_add(op.stream_sent_bytes, op.send_flight as int);
    let rest = op.send.subrange(op.send_flight as int, op.send.len() as int);
    let op1 = StreamModel {
        rto_ticks: if op.attempts == 1 { next_rto(op.rto_ticks, sample) } else { op.rto_ticks },
        local_sequence: seg.acknowledgment,
        stream_sent_bytes: sent,
        congestion_window: cwnd,
        send: rest,
        send_flight: 0,
        send_completed: rest.len() == 0,
        attempts: 0,
        ..op
    };
    (
        refreshed(op1, tick),
        StreamStats {
            max_ack_latency: max_u64(st.max_ack_latency, sample),
            max_cwnd: if st.max_cwnd < cwnd { cwnd } else { st.max_cwnd },
            max_stream_bytes: max_u64(st.max_stream_bytes, max_u64(op.stream_received_bytes, sent)),
            ..st
        },
    )
}

/// The peer's window is taken only from an acceptable acknowledgment that is
/// not older than the last one the window came from.
#[verifier::opaque]
pub open spec fn window_update(op: StreamModel, seg: SegmentModel) -> StreamModel {
    if spec_sequence_after(seg.sequence, op.window_sequence) || (seg.sequence == op.window_sequence
        && !spec_sequence_after(op.window_acknowledgment, seg.acknowledgment)) {
        StreamModel { peer_window: seg.window, window_sequence: seg.sequence, window_acknowledgment: seg.acknowledgment, ..op }
    } else {
        op
    }
}

/// The acknowledgment carried by a segment: the stream after it and
/// whether it acknowledged exactly what was outstanding.
#[verifier::opaque]
pub open spec fn ack_phase(op: StreamModel, seg: SegmentModel, tick: u64, st: StreamStats) -> (StreamModel, StreamStats, bool) {
    if !has_flag(seg.flags, 0x10) || !spec_sequence_in_window(seg.sequence, op.remote_sequence, spec_receive_window(op)) {
        (op, st, false)
    } else if seg.acknowledgment == op.local_sequence {
        (window_update(op, seg), st, true)
    } else if op.send_flight != 0 && seg.acknowledgment == wrap_add(op.local_sequence, op.send_flight as int) {
        (window_update(acked_data(op, seg, tick, st).0, seg), acked_data(op, seg, tick, st).1, true)
    } else if op.fin_sent && !op.fin_acked && seg.acknowledgment == wrap_add(op.local_sequence, 1) {
        (window_update(refreshed(StreamModel { local_sequence: seg.acknowledgment, fin_acked: true, attempts: 0, ..op }, tick), seg), st, true)
    } else {
        (op, st, false)
    }
}

/// Whether a segment carries data or a FIN.
pub open spec fn occupies(seg: SegmentModel) -> bool {
    seg.payload.len() != 0 || has_flag(seg.flags, 0x01)
}

/// The bytes of a segment that passed the checks: taken into the empty
/// receive buffer at the next sequence (closing the gap before held bytes),
/// held in the reorder slot when it fits the window, or dropped; and
/// whether a FIN came with held bytes.
#[verifier::opaque]
pub open spec fn data_bytes(op: StreamModel, seg: SegmentModel, tick: u64, st: StreamStats) -> (StreamModel, StreamStats, bool) {
    let (op1, st1, dfin) = if seg.sequence == op.remote_sequence && op.receive.len() == 0 {
        let (a, s1) = in_order(op, seg, tick, st);
        (a, s1, false)
    } else if op.deferred is None && seq_distance(seg.sequence, op.remote_sequence) + seg.payload.len() + (if has_flag(seg.flags, 0x01) { 1int } else { 0int })
        <= spec_receive_window(op) {
        let (a, s1) = held(op, seg, tick, st);
        (a, s1, has_flag(seg.flags, 0x01))
    } else {
        (op, st, false)
    };
    (op1, buffer_stats(op1, st1), dfin)
}

/// The counters of the largest buffering and stream seen.
#[verifier::opaque]
pub open spec fn buffer_stats(op: StreamModel, st: StreamStats) -> StreamStats {
    let buffered = op.receive.len() + deferred_len(op);
    StreamStats {
        max_buffered: if st.max_buffered < buffered { buffered as usize } else { st.max_buffered },
        max_stream_bytes: max_u64(st.max_stream_bytes, op.stream_received_bytes),
        ..st
    }
}

/// Bytes at the next sequence into the empty receive buffer; held bytes
/// that now follow without a gap are acknowledged with them.
#[verifier::opaque]
pub open spec fn in_order(op: StreamModel, seg: SegmentModel, tick: u64, st: StreamStats) -> (StreamModel, StreamStats) {
    let len = seg.payload.len();
    let r1 = wrap_add(op.remote_sequence, len as int);
    let a = refreshed(StreamModel {
        receive: seg.payload,
        stream_received_bytes: sat_add(op.stream_received_bytes, len as int),
        remote_sequence: r1,
        ..op
    }, tick);
    let s1 = StreamStats { payload_bytes: sat_add(st.payload_bytes, len as int), ..st };
    match op.deferred {
        Some(d) => if d.sequence == r1 {
            (
                StreamModel {
                    remote_sequence: wrap_add(r1, d.bytes.len() + if d.fin { 1int } else { 0int }),
                    deferred: Some(DeferredModel { acknowledged: true, ..d }),
                    ..a
                },
                StreamStats { reordered_segments: sat_add(s1.reordered_segments, 1), ..s1 },
            )
        } else {
            (a, s1)
        },
        None => (a, s1),
    }
}

/// Bytes held in the reorder slot; acknowledged at once when they follow
/// without a gap.
#[verifier::opaque]
pub open spec fn held(op: StreamModel, seg: SegmentModel, tick: u64, st: StreamStats) -> (StreamModel, StreamStats) {
    let len = seg.payload.len();
    let fin = has_flag(seg.flags, 0x01);
    let contiguous = seg.sequence == op.remote_sequence;
    (
        refreshed(StreamModel {
            deferred: Some(DeferredModel { sequence: seg.sequence, bytes: seg.payload, fin, acknowledged: contiguous }),
            stream_received_bytes: sat_add(op.stream_received_bytes, len as int),
            remote_sequence: if contiguous {
                wrap_add(op.remote_sequence, len + if fin { 1int } else { 0int })
            } else {
                op.remote_sequence
            },
            ..op
        }, tick),
        StreamStats { payload_bytes: sat_add(st.payload_bytes, len as int), ..st },
    )
}

/// A FIN at the next sequence closes the peer's side.
#[verifier::opaque]
pub open spec fn fin_taken(op: StreamModel, seg: SegmentModel, tick: u64) -> StreamModel {
    if wrap_add(seg.sequence, seg.payload.len() as int) == op.remote_sequence {
        refreshed(StreamModel { remote_sequence: wrap_add(op.remote_sequence, 1), peer_fin: true, peer_fin_pending: true, ..op }, tick)
    } else {
        op
    }
}

/// Whether the checks before the data turn a segment away with a bare
/// acknowledgment: unacceptable, after the peer's FIN, into a closed
/// window, or overlapping held bytes.
pub open spec fn turned_away(op: StreamModel, seg: SegmentModel, ack_valid: bool) -> bool {
    let len = seg.payload.len();
    ||| occupies(seg) && !ack_valid
    ||| (op.peer_fin || (op.deferred matches Some(d) && d.acknowledged && d.fin)) && occupies(seg)
    ||| len <= PASSIVE_TCP_STREAM_BUFFER_CAPACITY && spec_receive_window(op) == 0 && occupies(seg)
    ||| len <= PASSIVE_TCP_STREAM_BUFFER_CAPACITY && len != 0 && (op.deferred matches Some(d) && !d.acknowledged
        && seg.sequence == op.remote_sequence && len > seq_distance(d.sequence, op.remote_sequence))
}

/// The data and FIN of a segment, after its acknowledgment.
#[verifier::opaque]
pub open spec fn data_phase(op: StreamModel, seg: SegmentModel, tick: u64, st: StreamStats, ack_valid: bool) -> (StreamModel, StreamStats, SegmentReply) {
    let len = seg.payload.len();
    let fin = has_flag(seg.flags, 0x01);
    if (occupies(seg) && !ack_valid) || ((op.peer_fin || (op.deferred matches Some(d) && d.acknowledged && d.fin)) && occupies(seg)) {
        (op, st, SegmentReply::Ack)
    } else if len > PASSIVE_TCP_STREAM_BUFFER_CAPACITY {
        (StreamModel { failed: true, ..op }, st, SegmentReply::Reset)
    } else if turned_away(op, seg, ack_valid) {
        (op, st, SegmentReply::Ack)
    } else {
        let (op2, st2, deferred_fin) = if len != 0 { data_bytes(op, seg, tick, st) } else { (op, st, false) };
        if fin && !deferred_fin {
            (fin_taken(op2, seg, tick), st2, SegmentReply::WindowAck)
        } else {
            (op2, st2, if len != 0 { SegmentReply::WindowAck } else { SegmentReply::Nothing })
        }
    }
}

/// One segment of an established stream: a reset is taken only at the
/// exact next sequence and an in-window guess is challenged, at most once
/// per tick; a SYN is challenged; then the acknowledgment and the data.
pub open spec fn spec_stream_segment(op: StreamModel, seg: SegmentModel, tick: u64, st: StreamStats) -> (StreamModel, StreamStats, SegmentReply) {
    if has_flag(seg.flags, 0x04) {
        if seg.sequence == op.remote_sequence {
            (StreamModel { reset: true, ..op }, st, SegmentReply::Nothing)
        } else if spec_sequence_in_window(seg.sequence, op.remote_sequence, spec_receive_window(op)) && op.challenge_ack_tick
            != Some(tick) {
            (StreamModel { challenge_ack_tick: Some(tick), ..op }, st, SegmentReply::Ack)
        } else {
            (op, st, SegmentReply::Nothing)
        }
    } else if has_flag(seg.flags, 0x02) {
        if op.challenge_ack_tick != Some(tick) {
            (StreamModel { challenge_ack_tick: Some(tick), ..op }, st, SegmentReply::Ack)
        } else {
            (op, st, SegmentReply::Nothing)
        }
    } else {
        let (op1, st1, valid) = ack_phase(op, seg, tick, st);
        data_phase(op1, seg, tick, st1, valid)
    }
}


fn copy_bytes(b: &Vec<u8>) -> (r: Vec<u8>)
    ensures
        r@ == b@,
{
    let mut r: Vec<u8> = Vec::new();
    let mut i: usize = 0;
    while i < b.len()
        invariant
            i <= b@.len(),
            r@ == b@.subrange(0, i as int),
        decreases b@.len() - i,
    {
        r.push(b[i]);
        i += 1;
        assert(r@ =~= b@.subrange(0, i as int));
    }
    assert(b@.subrange(0, i as int) =~= b@);
    r
}

fn tail_from(b: &Vec<u8>, from: usize) -> (r: Vec<u8>)
    requires
        from <= b@.len(),
    ensures
        r@ == b@.subrange(from as int, b@.len() as int),
{
    let mut r: Vec<u8> = Vec::new();
    let mut i: usize = from;
    while i < b.len()
        invariant
            from <= i <= b@.len(),
            r@ == b@.subrange(from as int, i as int),
        decreases b@.len() - i,
    {
        r.push(b[i]);
        i += 1;
        assert(r@ =~= b@.subrange(from as int, i as int));
    }
    r
}

pub fn receive_window(op: &StreamOperation) -> (r: u16)
    requires
        stream_wf(op@),
    ensures
        r == spec_receive_window(op@),
{
    let deferred: usize = match &op.deferred {
        Some(d) => d.bytes.len(),
        None => 0,
    };
    let buffered = op.receive.len() + deferred;
    if buffered >= PASSIVE_TCP_RECEIVE_CAPACITY {
        0
    } else {
        (PASSIVE_TCP_RECEIVE_CAPACITY - buffered) as u16
    }
}

pub fn refresh_stream_idle(op: &mut StreamOperation, tick: u64)
    ensures
        final(op)@ == refreshed(old(op)@, tick),
        final(op)@ == (StreamModel { deadline: final(op)@.deadline, ..old(op)@ }),
        final(op).peer == old(op).peer,
        final(op).persist_deadline == old(op).persist_deadline,
        final(op).persist_attempts == old(op).persist_attempts,
{
    proof {
        reveal(refreshed);
    }
    if op.send_flight == 0 && !(op.fin_sent && !op.fin_acked) {
        op.deadline = tick.saturating_add(PASSIVE_TCP_STREAM_IDLE_TICKS);
    }
}

fn rto_after(rto: u64, sample: u64) -> (r: u64)
    ensures
        r == next_rto(rto, sample),
{
    let tripled = match rto.checked_mul(3) {
        Some(x) => x,
        None => u64::MAX,
    };
    let doubled = match sample.checked_mul(2) {
        Some(x) => x,
        None => u64::MAX,
    };
    let mixed = tripled.saturating_add(doubled) / 4;
    if mixed < 4 {
        4
    } else if mixed > PASSIVE_TCP_RETRY_TICKS * 2 {
        PASSIVE_TCP_RETRY_TICKS * 2
    } else {
        mixed
    }
}

fn cwnd_after(cwnd: usize, ssthresh: usize) -> (r: usize)
    requires
        cwnd <= PASSIVE_TCP_MAX_CWND,
    ensures
        r == next_cwnd(cwnd, ssthresh),
        r <= PASSIVE_TCP_MAX_CWND,
{
    let divisor: usize = if cwnd == 0 { 1 } else { cwnd };
    let quotient = (PASSIVE_TCP_MSS * PASSIVE_TCP_MSS) / divisor;
    let step: usize = if quotient < 1 { 1 } else { quotient };
    let grown = if cwnd < ssthresh {
        cwnd + PASSIVE_TCP_MSS
    } else {
        cwnd + step
    };
    if grown > PASSIVE_TCP_MAX_CWND {
        PASSIVE_TCP_MAX_CWND
    } else {
        grown
    }
}

#[verifier::spinoff_prover]
fn take_acked_data(op: &mut StreamOperation, seg: &Segment, tick: u64, stats: &mut StreamStats)
    requires
        stream_wf(old(op)@),
    ensures
        stream_wf(final(op)@),
        final(op).peer == old(op).peer,
        (final(op)@, *final(stats)) == acked_data(old(op)@, seg@, tick, *old(stats)),
{
    proof {
        reveal(acked_data);
    }
    let elapsed = tick.saturating_sub(op.sent_at);
    let sample: u64 = if elapsed < 1 { 1 } else { elapsed };
    if stats.max_ack_latency < sample {
        stats.max_ack_latency = sample;
    }
    if op.attempts == 1 {
        op.rto_ticks = rto_after(op.rto_ticks, sample);
    }
    op.local_sequence = seg.acknowledgment;
    op.stream_sent_bytes = op.stream_sent_bytes.saturating_add(op.send_flight as u64);
    let cwnd = cwnd_after(op.congestion_window, op.slow_start_threshold);
    op.congestion_window = cwnd;
    if stats.max_cwnd < cwnd {
        stats.max_cwnd = cwnd;
    }
    let most: u64 = if op.stream_received_bytes < op.stream_sent_bytes {
        op.stream_sent_bytes
    } else {
        op.stream_received_bytes
    };
    if stats.max_stream_bytes < most {
        stats.max_stream_bytes = most;
    }
    let rest = tail_from(&op.send, op.send_flight);
    op.send = rest;
    op.send_flight = 0;
    op.send_completed = op.send.len() == 0;
    op.attempts = 0;
    refresh_stream_idle(op, tick);
}

fn update_window(op: &mut StreamOperation, seg: &Segment)
    ensures
        final(op)@ == window_update(old(op)@, seg@),
        stream_wf(old(op)@) ==> stream_wf(final(op)@),
        final(op).peer == old(op).peer,
{
    proof {
        reveal(window_update);
    }
    if sequence_after(seg.sequence, op.window_sequence) || (seg.sequence == op.window_sequence
        && !sequence_after(op.window_acknowledgment, seg.acknowledgment)) {
        op.peer_window = seg.window;
        op.window_sequence = seg.sequence;
        op.window_acknowledgment = seg.acknowledgment;
    }
}

/// The acknowledgment phase of a segment.
#[verifier::spinoff_prover]
fn ack_step(op: &mut StreamOperation, seg: &Segment, tick: u64, stats: &mut StreamStats) -> (valid: bool)
    requires
        stream_wf(old(op)@),
    ensures
        stream_wf(final(op)@),
        final(op).peer == old(op).peer,
        (final(op)@, *final(stats), valid) == ack_phase(old(op)@, seg@, tick, *old(stats)),
{
    proof {
        reveal(ack_phase);
    }
    let window = receive_window(op);
    if seg.flags & 0x10 == 0 || !sequence_in_window(seg.sequence, op.remote_sequence, window) {
        return false;
    }
    if seg.acknowledgment == op.local_sequence {
        update_window(op, seg);
        true
    } else if op.send_flight != 0 && seg.acknowledgment == op.local_sequence.wrapping_add(op.send_flight as u32) {
        take_acked_data(op, seg, tick, stats);
        update_window(op, seg);
        true
    } else if op.fin_sent && !op.fin_acked && seg.acknowledgment == op.local_sequence.wrapping_add(1) {
        op.local_sequence = seg.acknowledgment;
        op.fin_acked = true;
        op.attempts = 0;
        refresh_stream_idle(op, tick);
        update_window(op, seg);
        true
    } else {
        false
    }
}

#[verifier::rlimit(60)]
#[verifier::spinoff_prover]
fn take_in_order(op: &mut StreamOperation, seg: &Segment, tick: u64, stats: &mut StreamStats)
    requires
        stream_wf(old(op)@),
        seg@.payload.len() <= PASSIVE_TCP_STREAM_BUFFER_CAPACITY,
    ensures
        stream_wf(final(op)@),
        final(op).peer == old(op).peer,
        (final(op)@, *final(stats)) == in_order(old(op)@, seg@, tick, *old(stats)),
{
    proof {
        reveal(in_order);
    }
    let len = seg.payload.len();
    op.receive = copy_bytes(&seg.payload);
    op.stream_received_bytes = op.stream_received_bytes.saturating_add(len as u64);
    op.remote_sequence = op.remote_sequence.wrapping_add(len as u32);
    stats.payload_bytes = stats.payload_bytes.saturating_add(len as u64);
    refresh_stream_idle(op, tick);
    match op.deferred.take() {
        Some(d) => {
            if d.sequence == op.remote_sequence {
                let extra: u32 = if d.fin { 1 } else { 0 };
                op.remote_sequence = op.remote_sequence.wrapping_add(d.bytes.len() as u32).wrapping_add(extra);
                stats.reordered_segments = stats.reordered_segments.saturating_add(1);
                op.deferred = Some(DeferredSegment { sequence: d.sequence, bytes: d.bytes, fin: d.fin, acknowledged: true });
            } else {
                op.deferred = Some(d);
            }
        },
        None => {},
    }
}

#[verifier::spinoff_prover]
fn hold(op: &mut StreamOperation, seg: &Segment, tick: u64, stats: &mut StreamStats)
    requires
        stream_wf(old(op)@),
        seg@.payload.len() <= PASSIVE_TCP_STREAM_BUFFER_CAPACITY,
    ensures
        stream_wf(final(op)@),
        final(op).peer == old(op).peer,
        (final(op)@, *final(stats)) == held(old(op)@, seg@, tick, *old(stats)),
{
    proof {
        reveal(held);
    }
    let len = seg.payload.len();
    let fin = seg.flags & 0x01 != 0;
    let extra: u32 = if fin { 1 } else { 0 };
    let contiguous = seg.sequence == op.remote_sequence;
    op.deferred = Some(DeferredSegment { sequence: seg.sequence, bytes: copy_bytes(&seg.payload), fin, acknowledged: contiguous });
    op.stream_received_bytes = op.stream_received_bytes.saturating_add(len as u64);
    if contiguous {
        op.remote_sequence = op.remote_sequence.wrapping_add(len as u32).wrapping_add(extra);
    }
    stats.payload_bytes = stats.payload_bytes.saturating_add(len as u64);
    refresh_stream_idle(op, tick);
}

/// Takes the bytes of an accepted segment; see `data_bytes`.
#[verifier::spinoff_prover]
fn take_bytes(op: &mut StreamOperation, seg: &Segment, tick: u64, stats: &mut StreamStats) -> (deferred_fin: bool)
    requires
        stream_wf(old(op)@),
        seg@.payload.len() <= PASSIVE_TCP_STREAM_BUFFER_CAPACITY,
    ensures
        stream_wf(final(op)@),
        final(op).peer == old(op).peer,
        (final(op)@, *final(stats), deferred_fin) == data_bytes(old(op)@, seg@, tick, *old(stats)),
{
    proof {
        reveal(data_bytes);
        reveal(buffer_stats);
    }
    let len = seg.payload.len();
    let fin = seg.flags & 0x01 != 0;
    let mut deferred_fin = false;
    if seg.sequence == op.remote_sequence && op.receive.len() == 0 {
        take_in_order(op, seg, tick, stats);
    } else {
        let window = receive_window(op);
        let extra: u64 = if fin { 1 } else { 0 };
        if op.deferred.is_none() && (seg.sequence.wrapping_sub(op.remote_sequence) as u64) + (len as u64) + extra <= window as u64 {
            hold(op, seg, tick, stats);
            deferred_fin = fin;
        }
    }
    let held_len: usize = match &op.deferred {
        Some(d) => d.bytes.len(),
        None => 0,
    };
    let buffered = op.receive.len() + held_len;
    if stats.max_buffered < buffered {
        stats.max_buffered = buffered;
    }
    if stats.max_stream_bytes < op.stream_received_bytes {
        stats.max_stream_bytes = op.stream_received_bytes;
    }
    deferred_fin
}

/// Applies one segment to an established stream; see
/// `spec_stream_segment`. The reply is built by the caller from the
/// stream as it stands afterwards; when a `WindowAck` cannot be sent the
/// caller marks the stream failed.
pub fn stream_segment(op: &mut StreamOperation, seg: &Segment, tick: u64, stats: &mut StreamStats) -> (r: SegmentReply)
    requires
        stream_wf(old(op)@),
    ensures
        stream_wf(final(op)@),
        final(op).peer == old(op).peer,
        (final(op)@, *final(stats), r) == spec_stream_segment(old(op)@, seg@, tick, *old(stats)),
{
    if seg.flags & 0x04 != 0 || seg.flags & 0x02 != 0 {
        return control_segment(op, seg, tick);
    }
    stream_data_segment(op, seg, tick, stats)
}

/// A reset or SYN on an established stream.
#[verifier::spinoff_prover]
fn control_segment(op: &mut StreamOperation, seg: &Segment, tick: u64) -> (r: SegmentReply)
    requires
        stream_wf(old(op)@),
        has_flag(seg.flags, 0x04) || has_flag(seg.flags, 0x02),
    ensures
        stream_wf(final(op)@),
        final(op).peer == old(op).peer,
        (final(op)@, r) == ({
            let x = spec_stream_segment(old(op)@, seg@, tick, StreamStats { max_ack_latency: 0, max_cwnd: 0, max_stream_bytes: 0, payload_bytes: 0, reordered_segments: 0, max_buffered: 0 });
            (x.0, x.2)
        }),
{
    if seg.flags & 0x04 != 0 {
        if seg.sequence == op.remote_sequence {
            op.reset = true;
            return SegmentReply::Nothing;
        }
        let window = receive_window(op);
        let challenged = match op.challenge_ack_tick {
            Some(t) => t == tick,
            None => false,
        };
        if sequence_in_window(seg.sequence, op.remote_sequence, window) && !challenged {
            op.challenge_ack_tick = Some(tick);
            return SegmentReply::Ack;
        }
        return SegmentReply::Nothing;
    }
    if seg.flags & 0x02 != 0 {
        let challenged = match op.challenge_ack_tick {
            Some(t) => t == tick,
            None => false,
        };
        if !challenged {
            op.challenge_ack_tick = Some(tick);
            return SegmentReply::Ack;
        }
        return SegmentReply::Nothing;
    }
    SegmentReply::Nothing
}

/// A segment without reset or SYN: its acknowledgment, then its data.
#[verifier::rlimit(60)]
#[verifier::spinoff_prover]
fn stream_data_segment(op: &mut StreamOperation, seg: &Segment, tick: u64, stats: &mut StreamStats) -> (r: SegmentReply)
    requires
        stream_wf(old(op)@),
        !has_flag(seg.flags, 0x04),
        !has_flag(seg.flags, 0x02),
    ensures
        stream_wf(final(op)@),
        final(op).peer == old(op).peer,
        (final(op)@, *final(stats), r) == spec_stream_segment(old(op)@, seg@, tick, *old(stats)),
{
    proof {
        reveal(data_phase);
        reveal(fin_taken);
    }
    let valid = ack_step(op, seg, tick, stats);
    let len = seg.payload.len();
    let fin = seg.flags & 0x01 != 0;
    let occupied = len != 0 || fin;
    let held_fin = match &op.deferred {
        Some(d) => d.acknowledged && d.fin,
        None => false,
    };
    if (occupied && !valid) || ((op.peer_fin || held_fin) && occupied) {
        return SegmentReply::Ack;
    }
    if len > PASSIVE_TCP_STREAM_BUFFER_CAPACITY {
        op.failed = true;
        return SegmentReply::Reset;
    }
    let window = receive_window(op);
    if window == 0 && occupied {
        return SegmentReply::Ack;
    }
    let overlaps = match &op.deferred {
        Some(d) => !d.acknowledged && seg.sequence == op.remote_sequence && len as u32 > d.sequence.wrapping_sub(
            op.remote_sequence,
        ),
        None => false,
    };
    if len != 0 && overlaps {
        return SegmentReply::Ack;
    }
    let deferred_fin = if len != 0 {
        take_bytes(op, seg, tick, stats)
    } else {
        false
    };
    if fin && !deferred_fin {
        if seg.sequence.wrapping_add(len as u32) == op.remote_sequence {
            op.remote_sequence = op.remote_sequence.wrapping_add(1);
            op.peer_fin = true;
            op.peer_fin_pending = true;
            refresh_stream_idle(op, tick);
        }
        return SegmentReply::WindowAck;
    }
    if len != 0 {
        SegmentReply::WindowAck
    } else {
        SegmentReply::Nothing
    }
}


/// A reset is taken only at exactly the next expected sequence: an
/// in-window guess is at most challenged.
pub proof fn lemma_reset_needs_exact_sequence(op: StreamModel, seg: SegmentModel, tick: u64, st: StreamStats)
    requires
        !op.reset,
        spec_stream_segment(op, seg, tick, st).0.reset,
    ensures
        has_flag(seg.flags, 0x04),
        seg.sequence == op.remote_sequence,
{
    reveal(ack_phase);
    reveal(data_phase);
    reveal(acked_data);
    reveal(window_update);
    reveal(refreshed);
    reveal(data_bytes);
    reveal(in_order);
    reveal(held);
    reveal(fin_taken);
    reveal(buffer_stats);
}

/// The peer's window moves only with an acceptable segment that
/// acknowledges exactly what was outstanding: a forged acknowledgment
/// cannot change it.
pub proof fn lemma_forged_ack_keeps_window(op: StreamModel, seg: SegmentModel, tick: u64, st: StreamStats)
    requires
        spec_stream_segment(op, seg, tick, st).0.peer_window != op.peer_window,
    ensures
        has_flag(seg.flags, 0x10),
        !has_flag(seg.flags, 0x04),
        !has_flag(seg.flags, 0x02),
        spec_sequence_in_window(seg.sequence, op.remote_sequence, spec_receive_window(op)),
        seg.acknowledgment == op.local_sequence || (op.send_flight != 0 && seg.acknowledgment == wrap_add(
            op.local_sequence,
            op.send_flight as int,
        )) || (op.fin_sent && !op.fin_acked && seg.acknowledgment == wrap_add(op.local_sequence, 1)),
{
    reveal(ack_phase);
    reveal(data_phase);
    reveal(acked_data);
    reveal(window_update);
    reveal(refreshed);
    reveal(data_bytes);
    reveal(in_order);
    reveal(held);
    reveal(fin_taken);
    reveal(buffer_stats);
}

/// After the peer's FIN no data is admitted: the receive buffer, the held
/// bytes and the next expected sequence stay as they are.
pub proof fn lemma_nothing_after_peer_fin(op: StreamModel, seg: SegmentModel, tick: u64, st: StreamStats)
    requires
        op.peer_fin,
    ensures
        spec_stream_segment(op, seg, tick, st).0.receive == op.receive,
        spec_stream_segment(op, seg, tick, st).0.deferred == op.deferred,
        spec_stream_segment(op, seg, tick, st).0.remote_sequence == op.remote_sequence,
{
    reveal(ack_phase);
    reveal(data_phase);
    reveal(acked_data);
    reveal(window_update);
    reveal(refreshed);
    reveal(data_bytes);
    reveal(in_order);
    reveal(held);
    reveal(fin_taken);
    reveal(buffer_stats);
}

/// Bytes are delivered once and in order: the receive buffer only fills,
/// from empty, with a segment at exactly the next expected sequence.
pub proof fn lemma_delivery_is_in_order(op: StreamModel, seg: SegmentModel, tick: u64, st: StreamStats)
    requires
        spec_stream_segment(op, seg, tick, st).0.receive != op.receive,
    ensures
        op.receive.len() == 0,
        seg.sequence == op.remote_sequence,
        spec_stream_segment(op, seg, tick, st).0.receive == seg.payload,
{
    reveal(ack_phase);
    reveal(data_phase);
    reveal(acked_data);
    reveal(window_update);
    reveal(refreshed);
    reveal(data_bytes);
    reveal(in_order);
    reveal(held);
    reveal(fin_taken);
    reveal(buffer_stats);
}


/// A new stream for an accepted peer, seeded with `early` bytes and
/// perhaps a FIN that the handshake already acknowledged.
pub open spec fn spec_open(peer: TcpServerPeer, early: Seq<u8>, fin: bool, peer_window: u16, tick: u64) -> StreamModel {
    StreamModel {
        peer,
        remote_sequence: wrap_add(peer.remote_sequence, early.len() + if fin { 1int } else { 0int }),
        local_sequence: peer.local_sequence,
        receive: early,
        deferred: None,
        send: Seq::empty(),
        send_flight: 0,
        send_completed: false,
        fin_sent: false,
        fin_acked: false,
        peer_fin: fin,
        peer_fin_pending: fin,
        reset: false,
        failed: false,
        attempts: 0,
        deadline: sat_add(tick, PASSIVE_TCP_STREAM_IDLE_TICKS as int),
        sent_at: tick,
        rto_ticks: PASSIVE_TCP_RETRY_TICKS,
        peer_window,
        window_sequence: peer.remote_sequence,
        window_acknowledgment: peer.local_sequence,
        persist_deadline: sat_add(tick, PASSIVE_TCP_RETRY_TICKS as int),
        persist_attempts: 0,
        challenge_ack_tick: None,
        congestion_window: (2 * PASSIVE_TCP_MSS) as usize,
        slow_start_threshold: PASSIVE_TCP_MAX_CWND,
        stream_received_bytes: early.len() as u64,
        stream_sent_bytes: 0,
    }
}

impl StreamOperation {
    /// A stream for an accepted peer, seeded with the early bytes and FIN
    /// the handshake already acknowledged.
    pub fn open(peer: TcpServerPeer, early: &EarlyStreamData, tick: u64) -> (op: StreamOperation)
        requires
            early.len <= PASSIVE_TCP_STREAM_BUFFER_CAPACITY,
        ensures
            stream_wf(op@),
            op@ == spec_open(peer, early.bytes@.subrange(0, early.len as int), early.fin, early.peer_window, tick),
    {
        let mut receive: Vec<u8> = Vec::new();
        let mut i: usize = 0;
        while i < early.len
            invariant
                early.len <= 128,
                early.bytes@.len() == 128,
                i <= early.len,
                receive@ == early.bytes@.subrange(0, i as int),
            decreases early.len - i,
        {
            receive.push(early.bytes[i]);
            i += 1;
            assert(receive@ =~= early.bytes@.subrange(0, i as int));
        }
        let extra: u32 = if early.fin { 1 } else { 0 };
        StreamOperation {
            peer,
            remote_sequence: peer.remote_sequence.wrapping_add(early.len as u32).wrapping_add(extra),
            local_sequence: peer.local_sequence,
            receive,
            deferred: None,
            send: Vec::new(),
            send_flight: 0,
            send_completed: false,
            fin_sent: false,
            fin_acked: false,
            peer_fin: early.fin,
            peer_fin_pending: early.fin,
            reset: false,
            failed: false,
            attempts: 0,
            deadline: tick.saturating_add(PASSIVE_TCP_STREAM_IDLE_TICKS),
            sent_at: tick,
            rto_ticks: PASSIVE_TCP_RETRY_TICKS,
            peer_window: early.peer_window,
            window_sequence: peer.remote_sequence,
            window_acknowledgment: peer.local_sequence,
            persist_deadline: tick.saturating_add(PASSIVE_TCP_RETRY_TICKS),
            persist_attempts: 0,
            challenge_ack_tick: None,
            congestion_window: 2 * PASSIVE_TCP_MSS,
            slow_start_threshold: PASSIVE_TCP_MAX_CWND,
            stream_received_bytes: early.len as u64,
            stream_sent_bytes: 0,
        }
    }
}

} // verus!
