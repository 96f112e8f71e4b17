//! Bounded IPv6 / ICMPv6 host bootstrap: no allocation, hardware access, or
//! implicit IPv4 conversion.
use vstd::prelude::*;
use crate::net::{fold, word_sum};
use crate::wire::{be16, be32, read_be16, read_be32};

verus! {

pub type Address = [u8; 16];

pub const UNSPECIFIED: Address = [0, 0, 0, 0, 0, 0, 0, 0, 0, 0, 0, 0, 0, 0, 0, 0];
pub const ALL_NODES: Address = [0xff, 2, 0, 0, 0, 0, 0, 0, 0, 0, 0, 0, 0, 0, 0, 1];
pub const ALL_ROUTERS: Address = [0xff, 2, 0, 0, 0, 0, 0, 0, 0, 0, 0, 0, 0, 0, 0, 2];
pub const FRAME_CAPACITY: usize = 1518;
pub const HEADER: usize = 54;
pub const TICKS_PER_SECOND: u64 = 100;
pub const DAD_TICKS: u64 = 100;
pub const RS_TICKS: u64 = 400;

#[derive(Debug, Clone, Copy, PartialEq, Eq)]
pub struct Packet<'a> {
    pub source_mac: [u8; 6],
    pub source: Address,
    pub destination: Address,
    pub next_header: u8,
    pub hop_limit: u8,
    pub payload: &'a [u8],
}

pub open spec fn spec_is_link_local(a: Seq<u8>) -> bool {
    a[0] == 0xfe && a[1] / 64 == 2
}

pub open spec fn spec_is_multicast(a: Seq<u8>) -> bool {
    a[0] == 0xff
}

pub fn is_link_local(address: Address) -> (r: bool)
    ensures
        r == spec_is_link_local(address@),
{
    let b = address[1];
    assert((b & 0xc0 == 0x80) == (b / 64 == 2)) by (bit_vector);
    address[0] == 0xfe && b & 0xc0 == 0x80
}

pub fn is_multicast(address: Address) -> (r: bool)
    ensures
        r == spec_is_multicast(address@),
{
    address[0] == 0xff
}

/// The EUI-64 link-local address of `mac`.
pub open spec fn spec_link_local(mac: Seq<u8>) -> Seq<u8> {
    seq![0xfe, 0x80, 0, 0, 0, 0, 0, 0, mac[0] ^ 2, mac[1], mac[2], 0xff, 0xfe, mac[3], mac[4], mac[5]]
}

/// The solicited-node multicast group of `a`.
pub open spec fn spec_solicited_node(a: Seq<u8>) -> Seq<u8> {
    seq![0xff, 2, 0, 0, 0, 0, 0, 0, 0, 0, 0, 1, 0xff, a[13], a[14], a[15]]
}

/// The Ethernet group address of multicast `a`.
pub open spec fn spec_multicast_mac(a: Seq<u8>) -> Seq<u8> {
    seq![0x33, 0x33, a[12], a[13], a[14], a[15]]
}

pub fn link_local(mac: [u8; 6]) -> (r: Address)
    ensures
        r@ == spec_link_local(mac@),
{
    let r = [0xfe, 0x80, 0, 0, 0, 0, 0, 0, mac[0] ^ 2, mac[1], mac[2], 0xff, 0xfe, mac[3], mac[4], mac[5]];
    assert(r@ =~= spec_link_local(mac@));
    r
}

pub fn solicited_node(address: Address) -> (r: Address)
    ensures
        r@ == spec_solicited_node(address@),
{
    let r = [0xff, 2, 0, 0, 0, 0, 0, 0, 0, 0, 0, 1, 0xff, address[13], address[14], address[15]];
    assert(r@ =~= spec_solicited_node(address@));
    r
}

pub fn multicast_mac(address: Address) -> (r: [u8; 6])
    ensures
        r@ == spec_multicast_mac(address@),
{
    let r = [0x33, 0x33, address[12], address[13], address[14], address[15]];
    assert(r@ =~= spec_multicast_mac(address@));
    r
}

/// Padding options (Pad1, PadN) from `offset` to `len` fill the header exactly.
pub open spec fn padding_ok(h: Seq<u8>, offset: int, len: int) -> bool
    decreases len - offset,
{
    if offset >= len {
        true
    } else if h[offset] == 0 {
        padding_ok(h, offset + 1, len)
    } else if h[offset] == 1 {
        offset + 1 < h.len() && offset + h[offset + 1] + 2 <= len && padding_ok(
            h,
            offset + h[offset + 1] + 2,
            len,
        )
    } else {
        false
    }
}

/// At most one Hop-by-Hop header followed by at most one Destination Options
/// header, each holding only padding: the upper-layer protocol and payload.
pub open spec fn spec_extensions(p: Seq<u8>, next: u8, seen_hop: bool, seen_destination: bool) -> Option<(u8, Seq<u8>)>
    decreases p.len(),
{
    if next != 0 && next != 60 {
        if next == 6 || next == 17 || next == 58 {
            Some((next, p))
        } else {
            None
        }
    } else if p.len() < 8 {
        None
    } else if next == 0 && (seen_hop || seen_destination) {
        None
    } else if next == 60 && seen_destination {
        None
    } else {
        let len = (p[1] + 1) * 8;
        if len > p.len() || !padding_ok(p.subrange(0, len), 2, len) {
            None
        } else {
            spec_extensions(
                p.subrange(len, p.len() as int),
                p[0],
                seen_hop || next == 0,
                seen_destination || next == 60,
            )
        }
    }
}

/// What an accepted frame carries.
pub ghost struct PacketInfo {
    pub source_mac: Seq<u8>,
    pub source: Seq<u8>,
    pub destination: Seq<u8>,
    pub next_header: u8,
    pub hop_limit: u8,
    pub payload: Seq<u8>,
}

pub open spec fn spec_parse_frame(f: Seq<u8>) -> Option<PacketInfo> {
    if f.len() < HEADER || f.len() > FRAME_CAPACITY || f[12] != 0x86 || f[13] != 0xdd {
        None
    } else {
        let ip = f.subrange(14, f.len() as int);
        let length = be16(ip, 4);
        if ip[0] / 16 != 6 || ip[7] == 0 || length == 0 || length > ip.len() - 40 {
            None
        } else if spec_is_multicast(ip.subrange(8, 24)) || ip.subrange(24, 40) == UNSPECIFIED@ {
            None
        } else {
            match spec_extensions(ip.subrange(40, 40 + length), ip[6], false, false) {
                None => None,
                Some((next, payload)) => Some(
                    PacketInfo {
                        source_mac: f.subrange(6, 12),
                        source: ip.subrange(8, 24),
                        destination: ip.subrange(24, 40),
                        next_header: next,
                        hop_limit: ip[7],
                        payload,
                    },
                ),
            }
        }
    }
}

pub open spec fn packet_matches(p: Packet, i: PacketInfo) -> bool {
    &&& p.source_mac@ == i.source_mac
    &&& p.source@ == i.source
    &&& p.destination@ == i.destination
    &&& p.next_header == i.next_header
    &&& p.hop_limit == i.hop_limit
    &&& p.payload@ == i.payload
}

fn padding_valid(header: &[u8], len: usize) -> (r: bool)
    requires
        2 <= len == header@.len(),
        len <= 2048,
    ensures
        r == padding_ok(header@, 2, len as int),
{
    let mut offset: usize = 2;
    while offset < len
        invariant
            2 <= offset,
            len == header@.len(),
            len <= 2048,
            offset <= len + 0,
            padding_ok(header@, 2, len as int) == padding_ok(header@, offset as int, len as int),
        decreases len - offset,
    {
        let kind = header[offset];
        if kind == 0 {
            offset += 1;
        } else if kind == 1 {
            if offset + 1 >= len {
                return false;
            }
            let count = header[offset + 1] as usize;
            if offset + count + 2 > len {
                return false;
            }
            offset = offset + count + 2;
        } else {
            return false;
        }
    }
    true
}

fn copy_address(b: &[u8], at: usize) -> (r: Address)
    requires
        at + 16 <= b@.len(),
    ensures
        r@ == b@.subrange(at as int, at + 16),
{
    let r = [
        b[at], b[at + 1], b[at + 2], b[at + 3], b[at + 4], b[at + 5], b[at + 6], b[at + 7],
        b[at + 8], b[at + 9], b[at + 10], b[at + 11], b[at + 12], b[at + 13], b[at + 14],
        b[at + 15],
    ];
    assert(r@ =~= b@.subrange(at as int, at + 16));
    r
}

fn copy_mac(b: &[u8], at: usize) -> (r: [u8; 6])
    requires
        at + 6 <= b@.len(),
    ensures
        r@ == b@.subrange(at as int, at + 6),
{
    let r = [b[at], b[at + 1], b[at + 2], b[at + 3], b[at + 4], b[at + 5]];
    assert(r@ =~= b@.subrange(at as int, at + 6));
    r
}

pub fn address_eq(a: &Address, b: &Address) -> (r: bool)
    ensures
        r == (a@ == b@),
{
    crate::strings::bytes_equal(a.as_slice(), b.as_slice())
}

/// Accepts one IPv6 frame with padding-only extension headers carrying TCP,
/// UDP or ICMPv6.
pub fn parse_frame<'a>(frame: &'a [u8]) -> (r: Option<Packet<'a>>)
    ensures
        match (r, spec_parse_frame(frame@)) {
            (Some(p), Some(i)) => packet_matches(p, i),
            (None, None) => true,
            _ => false,
        },
        r is Some ==> r->0.payload@.len() <= frame@.len(),
{
    let n = frame.len();
    if n < HEADER || n > FRAME_CAPACITY || frame[12] != 0x86 || frame[13] != 0xdd {
        return None;
    }
    let ip = &frame[14..n];
    let length = read_be16(ip, 4) as usize;
    let first = ip[0];
    let version = first >> 4u8;
    assert(version == first / 16) by (bit_vector)
        requires
            version == first >> 4u8,
    ;
    if version != 6 || ip[7] == 0 || length == 0 || length > ip.len() - 40 {
        return None;
    }
    let source = copy_address(ip, 8);
    let destination = copy_address(ip, 24);
    if is_multicast(source) || address_eq(&destination, &UNSPECIFIED) {
        return None;
    }
    let mut payload = &ip[40..40 + length];
    let mut next = ip[6];
    let mut seen_hop = false;
    let mut seen_destination = false;
    let ghost info = |nx: u8, pl: Seq<u8>| PacketInfo {
        source_mac: frame@.subrange(6, 12),
        source: source@,
        destination: destination@,
        next_header: nx,
        hop_limit: ip@[7],
        payload: pl,
    };
    let ghost start = payload@;
    assert(ip@ =~= frame@.subrange(14, n as int));
    assert(spec_parse_frame(frame@) == match spec_extensions(start, ip@[6], false, false) {
        None => None,
        Some((nx, pl)) => Some(info(nx, pl)),
    });
    while next == 0 || next == 60
        invariant
            spec_parse_frame(frame@) == match spec_extensions(start, ip@[6], false, false) {
                None => None,
                Some((nx, pl)) => Some(info(nx, pl)),
            },
            spec_extensions(start, ip@[6], false, false)
                == spec_extensions(payload@, next, seen_hop, seen_destination),
            n == frame@.len(),
            payload@.len() <= n,
        decreases payload@.len(),
    {
        let plen = payload.len();
        if plen < 8 {
            return None;
        }
        if next == 0 {
            if seen_hop || seen_destination {
                return None;
            }
            seen_hop = true;
        } else {
            if seen_destination {
                return None;
            }
            seen_destination = true;
        }
        let len = (payload[1] as usize + 1) * 8;
        if len > plen {
            return None;
        }
        let header = &payload[0..len];
        if !padding_valid(header, len) {
            return None;
        }
        next = payload[0];
        payload = &payload[len..plen];
    }
    if !(next == 6 || next == 17 || next == 58) {
        return None;
    }
    Some(
        Packet {
            source_mac: copy_mac(frame, 6),
            source,
            destination,
            next_header: next,
            hop_limit: ip[7],
            payload,
        },
    )
}

/// The Internet checksum over the IPv6 pseudo-header and `b`; a complete
/// ICMPv6, TCP or UDP packet with a correct checksum gives zero.
pub open spec fn spec_transport_checksum(s: Seq<u8>, d: Seq<u8>, protocol: u8, b: Seq<u8>) -> u16 {
    !(fold(
        (word_sum(s) + word_sum(d) + word_sum(b) + b.len() % 65536 + (b.len() / 65536) % 65536
            + protocol) as nat,
    ) as u16)
}

proof fn lemma_words_nonneg(b: Seq<u8>, k: int)
    requires
        0 <= k,
        2 * k <= b.len(),
    ensures
        0 <= crate::net::words(b, k) <= 0xffff * k,
    decreases k,
{
    if k > 0 {
        lemma_words_nonneg(b, k - 1);
    }
}

fn add_words64(start: u64, bytes: &[u8]) -> (r: u64)
    requires
        start <= 0x1_0000_0000,
        bytes@.len() <= 0x100_0000_0000,
    ensures
        r == start + word_sum(bytes@),
        r <= 0x1_0000_0000 + 0xffff * bytes@.len(),
{
    let mut sum = start;
    let len = bytes.len();
    let n = len / 2;
    let mut i: usize = 0;
    while i < n
        invariant
            len == bytes@.len(),
            len <= 0x100_0000_0000,
            start <= 0x1_0000_0000,
            n == len / 2,
            i <= n,
            sum == start + crate::net::words(bytes@, i as int),
        decreases n - i,
    {
        proof {
            lemma_words_nonneg(bytes@, i as int);
        }
        let w = read_be16(bytes, 2 * i);
        sum = sum + w as u64;
        i += 1;
    }
    proof {
        lemma_words_nonneg(bytes@, n as int);
    }
    if len % 2 == 1 {
        let last = bytes[len - 1];
        sum = sum + (last as u64) * 256;
    }
    sum
}

fn fold_u64(sum: u64) -> (r: u16)
    ensures
        r == fold(sum as nat),
{
    let mut s = sum;
    while s >> 16u64 != 0
        invariant
            fold(s as nat) == fold(sum as nat),
        decreases s,
    {
        let lo = s & 0xffff;
        let hi = s >> 16u64;
        assert(lo == s % 0x10000 && hi == s / 0x10000) by (bit_vector)
            requires
                lo == s & 0xffff,
                hi == s >> 16u64,
        ;
        s = lo + hi;
    }
    assert(s >> 16u64 == 0 ==> s < 0x10000) by (bit_vector);
    s as u16
}

pub fn transport_checksum(source: Address, destination: Address, protocol: u8, bytes: &[u8]) -> (r: u16)
    requires
        bytes@.len() <= 0x100_0000_0000,
    ensures
        r == spec_transport_checksum(source@, destination@, protocol, bytes@),
{
    let s1 = add_words64(0, source.as_slice());
    let s2 = add_words64(0, destination.as_slice());
    let len = bytes.len() as u64;
    let lo = len & 0xffff;
    let hi = (len >> 16u64) & 0xffff;
    assert(lo == len % 65536 && hi == (len / 65536) % 65536) by (bit_vector)
        requires
            lo == len & 0xffff,
            hi == (len >> 16u64) & 0xffff,
    ;
    let s3 = add_words64(0, bytes);
    let sum = s1 + s2 + s3 + lo + hi + protocol as u64;
    !fold_u64(sum)
}

pub open spec fn transport_minimum(next: u8) -> int {
    if next == 6 {
        20
    } else if next == 17 {
        8
    } else if next == 58 {
        4
    } else {
        -1
    }
}

/// TCP, UDP or ICMPv6 with a full header and a correct checksum; UDP must
/// carry a checksum and a length matching the payload.
pub open spec fn spec_valid_transport(p: PacketInfo) -> bool {
    let b = p.payload;
    if transport_minimum(p.next_header) < 0 || b.len() < transport_minimum(p.next_header) {
        false
    } else if p.next_header == 17 && ((b[6] == 0 && b[7] == 0) || be16(b, 4) != b.len()) {
        false
    } else {
        spec_transport_checksum(p.source, p.destination, p.next_header, b) == 0
    }
}

pub open spec fn info_of(p: Packet) -> PacketInfo {
    PacketInfo {
        source_mac: p.source_mac@,
        source: p.source@,
        destination: p.destination@,
        next_header: p.next_header,
        hop_limit: p.hop_limit,
        payload: p.payload@,
    }
}

pub fn valid_transport(packet: &Packet) -> (r: bool)
    requires
        packet.payload@.len() <= FRAME_CAPACITY,
    ensures
        r == spec_valid_transport(info_of(*packet)),
{
    let minimum: usize = if packet.next_header == 6 {
        20
    } else if packet.next_header == 17 {
        8
    } else if packet.next_header == 58 {
        4
    } else {
        return false;
    };
    let b = packet.payload;
    if b.len() < minimum {
        return false;
    }
    if packet.next_header == 17 && ((b[6] == 0 && b[7] == 0) || read_be16(b, 4) as usize != b.len()) {
        return false;
    }
    transport_checksum(packet.source, packet.destination, packet.next_header, b) == 0
}

/// The ICMPv6 body with its checksum field filled in.
pub open spec fn checked_body(s: Seq<u8>, d: Seq<u8>, msg: Seq<u8>) -> Seq<u8> {
    let zeroed = msg.update(2, 0).update(3, 0);
    let c = spec_transport_checksum(s, d, 58, zeroed);
    zeroed.update(2, (c / 256) as u8).update(3, (c % 256) as u8)
}

/// An Ethernet frame carrying one ICMPv6 message.
pub open spec fn control_frame(
    source_mac: Seq<u8>,
    destination_mac: Seq<u8>,
    s: Seq<u8>,
    d: Seq<u8>,
    hop: u8,
    msg: Seq<u8>,
) -> Seq<u8> {
    destination_mac + source_mac + seq![0x86u8, 0xddu8, 0x60u8, 0u8, 0u8, 0u8, (msg.len() / 256) as u8, (msg.len() % 256) as u8, 58u8, hop] + s + d + checked_body(s, d, msg)
}

fn put(frame: &mut [u8], at: usize, src: &[u8])
    requires
        at + src@.len() <= old(frame)@.len(),
    ensures
        final(frame)@.len() == old(frame)@.len(),
        final(frame)@ == old(frame)@.subrange(0, at as int) + src@ + old(frame)@.subrange(
            at + src@.len(),
            old(frame)@.len() as int,
        ),
{
    let mut i: usize = 0;
    let n = frame.len();
    while i < src.len()
        invariant
            n == frame@.len(),
            at + src@.len() <= frame@.len(),
            frame@.len() == old(frame)@.len(),
            i <= src@.len(),
            frame@ == old(frame)@.subrange(0, at as int) + src@.subrange(0, i as int) + old(
                frame,
            )@.subrange(at + i, old(frame)@.len() as int),
        decreases src@.len() - i,
    {
        frame[at + i] = src[i];
        i += 1;
        assert(frame@ =~= old(frame)@.subrange(0, at as int) + src@.subrange(0, i as int) + old(
            frame,
        )@.subrange(at + i, old(frame)@.len() as int));
    }
    assert(src@.subrange(0, i as int) =~= src@);
}

/// A size as an integer.
pub open spec fn pos(n: usize) -> int {
    n as int
}

/// The length of a byte sequence as an integer.
pub open spec fn end(s: Seq<u8>) -> int {
    s.len() as int
}

/// The two length bytes of a message of `len` bytes.
fn length_bytes(len: usize) -> (r: (u8, u8))
    requires
        len < 65536,
    ensures
        r.0 == len / 256,
        r.1 == len % 256,
{
    let (hi, lo) = crate::wire::be16_bytes(len as u16);
    (hi, lo)
}

fn checksum_bytes(c: u16) -> (r: (u8, u8))
    ensures
        r.0 == c / 256,
        r.1 == c % 256,
{
    crate::wire::be16_bytes(c)
}

proof fn lemma_frame_written(
    written: Seq<u8>,
    before: Seq<u8>,
    source_mac: Seq<u8>,
    destination_mac: Seq<u8>,
    s: Seq<u8>,
    d: Seq<u8>,
    hop: u8,
    msg: Seq<u8>,
    len: usize,
)
    requires
        len == HEADER + msg.len(),
        4 <= msg.len(),
        len <= before.len(),
        source_mac.len() == 6,
        destination_mac.len() == 6,
        s.len() == 16,
        d.len() == 16,
        written.len() == before.len(),
        written.subrange(0, 6) == destination_mac,
        written.subrange(6, 12) == source_mac,
        written.subrange(12, 22) == seq![0x86u8, 0xddu8, 0x60u8, 0u8, 0u8, 0u8, (msg.len() / 256) as u8, (msg.len() % 256) as u8, 58u8, hop],
        written.subrange(22, 38) == s,
        written.subrange(38, 54) == d,
        written.subrange(54, len as int) == checked_body(s, d, msg),
        written.subrange(len as int, written.len() as int) == before.subrange(len as int, before.len() as int),
    ensures
        written == control_frame(source_mac, destination_mac, s, d, hop, msg) + before.subrange(
            len as int,
            before.len() as int,
        ),
{
    assert(written =~= control_frame(source_mac, destination_mac, s, d, hop, msg) + before.subrange(
        len as int,
        before.len() as int,
    ));
}

/// Writes one ICMPv6 frame at the start of `frame`; fails without writing
/// when the message is shorter than an ICMPv6 header, the frame would exceed
/// Ethernet capacity, the hop limit is zero, or `frame` is too short.
pub fn write_icmp(
    frame: &mut [u8],
    source_mac: [u8; 6],
    destination_mac: [u8; 6],
    source: Address,
    destination: Address,
    hop_limit: u8,
    message: &[u8],
) -> (r: Option<usize>)
    ensures
        write_outcome(r, old(frame)@, final(frame)@, source_mac@, destination_mac@, source@, destination@, hop_limit, message@),
{
    let mlen = message.len();
    if mlen > FRAME_CAPACITY - HEADER || mlen < 4 || hop_limit == 0 || HEADER + mlen > frame.len() {
        return None;
    }
    let len = HEADER + mlen;
    let (hi, lo) = length_bytes(mlen);
    let fixed = [0x86u8, 0xdd, 0x60, 0, 0, 0, hi, lo, 58, hop_limit];
    let ghost before = frame@;
    put(frame, 0, destination_mac.as_slice());
    put(frame, 6, source_mac.as_slice());
    put(frame, 12, fixed.as_slice());
    put(frame, 22, source.as_slice());
    put(frame, 38, destination.as_slice());
    put(frame, 54, message);
    frame[56] = 0;
    frame[57] = 0;
    let body = &frame[54..len];
    let checksum = transport_checksum(source, destination, 58, body);
    let (c_hi, c_lo) = checksum_bytes(checksum);
    frame[56] = c_hi;
    frame[57] = c_lo;
    proof {
        let zeroed = message@.update(2, 0).update(3, 0);
        assert(body@ =~= zeroed);
        assert(fixed@ =~= seq![0x86u8, 0xddu8, 0x60u8, 0u8, 0u8, 0u8, hi, lo, 58u8, hop_limit]);
        assert(frame@.subrange(0, 6) =~= destination_mac@);
        assert(frame@.subrange(6, 12) =~= source_mac@);
        assert(frame@.subrange(12, 22) =~= fixed@);
        assert(frame@.subrange(22, 38) =~= source@);
        assert(frame@.subrange(38, 54) =~= destination@);
        assert(frame@.subrange(54, pos(len)) =~= checked_body(source@, destination@, message@));
        assert(frame@.subrange(pos(len), end(frame@)) =~= before.subrange(pos(len), end(before)));
        lemma_frame_written(frame@, before, source_mac@, destination_mac@, source@, destination@, hop_limit, message@, len);
    }
    Some(len)
}

/// What `write_icmp` leaves behind.
pub open spec fn write_outcome(
    r: Option<usize>,
    before: Seq<u8>,
    after: Seq<u8>,
    source_mac: Seq<u8>,
    destination_mac: Seq<u8>,
    s: Seq<u8>,
    d: Seq<u8>,
    hop: u8,
    msg: Seq<u8>,
) -> bool {
    let len = HEADER + msg.len();
    if len > FRAME_CAPACITY || msg.len() < 4 || hop == 0 || len > before.len() {
        r is None && after == before
    } else {
        r is Some && r->0 == len && after == control_frame(source_mac, destination_mac, s, d, hop, msg)
            + before.subrange(len, before.len() as int)
    }
}

#[derive(Debug, Clone, Copy, PartialEq, Eq)]
pub struct Route {
    pub address: Address,
    pub router: Address,
    pub router_mac: [u8; 6],
    pub mtu: u16,
    pub preferred_until: u64,
    pub valid_until: u64,
    pub router_until: u64,
}

/// `seconds` after `tick` on the 100 Hz clock, saturating.
pub open spec fn spec_deadline(tick: u64, seconds: u32) -> u64 {
    if tick + seconds * 100 > u64::MAX {
        u64::MAX
    } else {
        (tick + seconds * 100) as u64
    }
}

pub fn deadline(tick: u64, seconds: u32) -> (r: u64)
    ensures
        r == spec_deadline(tick, seconds),
{
    tick.saturating_add(seconds as u64 * TICKS_PER_SECOND)
}

/// What a router advertisement's options have supplied so far.
pub ghost struct RaOptions {
    pub prefix: Option<(Seq<u8>, u32, u32)>,
    pub mac: Option<Seq<u8>>,
    pub mtu: u16,
}

/// A prefix usable for stateless autoconfiguration.
pub open spec fn usable_prefix(o: Seq<u8>, valid: u32, preferred: u32) -> bool {
    let a = o.subrange(16, 32);
    &&& o[2] == 64
    &&& o[3] / 64 == 3
    &&& valid != 0
    &&& preferred != 0
    &&& !spec_is_link_local(a)
    &&& !spec_is_multicast(a)
    &&& a.subrange(0, 8) != seq![0u8, 0, 0, 0, 0, 0, 0, 0]
}

/// One option applied to the advertisement; `None` rejects the message.
pub open spec fn ra_step(st: RaOptions, o: Seq<u8>, source_mac: Seq<u8>) -> Option<RaOptions> {
    if o[0] == 1 {
        if o.len() != 8 || st.mac is Some || o.subrange(2, 8) != source_mac || o[2] % 2 == 1 {
            None
        } else {
            Some(RaOptions { mac: Some(o.subrange(2, 8)), ..st })
        }
    } else if o[0] == 3 {
        if o.len() != 32 || be32(o, 8) > be32(o, 4) {
            None
        } else if usable_prefix(o, be32(o, 4) as u32, be32(o, 8) as u32) && st.prefix is None {
            Some(RaOptions { prefix: Some((o.subrange(16, 32), be32(o, 8) as u32, be32(o, 4) as u32)), ..st })
        } else {
            Some(st)
        }
    } else if o[0] == 5 {
        if o.len() != 8 {
            None
        } else if be32(o, 4) >= 1280 {
            Some(RaOptions { mtu: if be32(o, 4) < 1500 { be32(o, 4) as u16 } else { 1500 }, ..st })
        } else {
            Some(st)
        }
    } else {
        Some(st)
    }
}

/// The options in `b` applied in order from `st`; `None` when one is
/// malformed (zero length, overrunning the message) or rejects the message.
pub open spec fn spec_fold_options(b: Seq<u8>, st: RaOptions, source_mac: Seq<u8>) -> Option<RaOptions>
    decreases b.len(),
{
    if b.len() == 0 {
        Some(st)
    } else if b.len() < 2 || b[1] == 0 || b[1] * 8 > b.len() {
        None
    } else {
        match ra_step(st, b.subrange(0, b[1] * 8), source_mac) {
            None => None,
            Some(next) => spec_fold_options(b.subrange(b[1] * 8, b.len() as int), next, source_mac),
        }
    }
}

/// What an accepted router advertisement configures.
pub ghost struct RouteInfo {
    pub address: Seq<u8>,
    pub router: Seq<u8>,
    pub router_mac: Seq<u8>,
    pub mtu: u16,
    pub preferred_until: u64,
    pub valid_until: u64,
    pub router_until: u64,
}

/// A router advertisement from a link-local router with hop limit 255, a
/// nonzero router lifetime, its own source link-layer address and one
/// autoconfiguration prefix; the route combines that prefix with the local
/// interface identifier.
pub open spec fn spec_router_advertisement(p: PacketInfo, local: Seq<u8>, tick: u64) -> Option<RouteInfo> {
    let body = p.payload;
    if p.next_header != 58 || p.hop_limit != 255 || !spec_is_link_local(p.source) || !(
    p.destination == ALL_NODES@ || p.destination == local) || body.len() < 16 || body[0] != 134
        || body[1] != 0 || !spec_valid_transport(p) {
        None
    } else if be16(body, 6) == 0 {
        None
    } else {
        match spec_fold_options(body.subrange(16, body.len() as int), RaOptions { prefix: None, mac: None, mtu: 1280 }, p.source_mac) {
                None => None,
                Some(st) => if st.prefix is None || st.mac is None {
                    None
                } else {
                    let (prefix, preferred, valid) = st.prefix->0;
                    Some(
                        RouteInfo {
                            address: prefix.subrange(0, 8) + local.subrange(8, 16),
                            router: p.source,
                            router_mac: st.mac->0,
                            mtu: st.mtu,
                            preferred_until: spec_deadline(tick, preferred),
                            valid_until: spec_deadline(tick, valid),
                            router_until: spec_deadline(tick, be16(body, 6) as u32),
                        },
                    )
                },
        }
    }
}

pub open spec fn route_info(r: Route) -> RouteInfo {
    RouteInfo {
        address: r.address@,
        router: r.router@,
        router_mac: r.router_mac@,
        mtu: r.mtu,
        preferred_until: r.preferred_until,
        valid_until: r.valid_until,
        router_until: r.router_until,
    }
}

/// The length of the first option in `b`, when it is nonzero and fits.
fn next_option(b: &[u8]) -> (r: Option<usize>)
    requires
        b@.len() > 0,
    ensures
        r is None <==> (b@.len() < 2 || b@[1] == 0 || b@[1] * 8 > b@.len()),
        r is Some ==> r->0 == b@[1] * 8,
{
    if b.len() < 2 || b[1] == 0 {
        return None;
    }
    let len = b[1] as usize * 8;
    if len > b.len() {
        return None;
    }
    Some(len)
}

struct RaState {
    prefix: Option<(Address, u32, u32)>,
    mac: Option<[u8; 6]>,
    mtu: u16,
}

spec fn ra_model(st: RaState) -> RaOptions {
    RaOptions {
        prefix: match st.prefix {
            None => None,
            Some((a, p, v)) => Some((a@, p, v)),
        },
        mac: match st.mac {
            None => None,
            Some(m) => Some(m@),
        },
        mtu: st.mtu,
    }
}

/// Applies one option to the advertisement state.
fn ra_option(st: RaState, option: &[u8], source_mac: &[u8; 6]) -> (r: Option<RaState>)
    requires
        option@.len() >= 8,
    ensures
        match (r, ra_step(ra_model(st), option@, source_mac@)) {
            (Some(n), Some(m)) => ra_model(n) == m,
            (None, None) => true,
            _ => false,
        },
{
    let len = option.len();
    let kind = option[0];
    let mut st = st;
    if kind == 1 {
        if len != 8 || st.mac.is_some() {
            return None;
        }
        let address = copy_mac(option, 2);
        if !crate::strings::bytes_equal(address.as_slice(), source_mac.as_slice()) || address[0] % 2 == 1 {
            return None;
        }
        st.mac = Some(address);
    } else if kind == 3 {
        if len != 32 {
            return None;
        }
        let valid = read_be32(option, 4);
        let preferred = read_be32(option, 8);
        let prefix_address = copy_address(option, 16);
        if preferred > valid {
            return None;
        }
        let flags = option[3];
        let upper = flags / 64;
        if option[2] == 64 && upper == 3 && valid != 0 && preferred != 0 && !is_link_local(
            prefix_address,
        ) && !is_multicast(prefix_address) && !crate::strings::bytes_equal(
            &prefix_address.as_slice()[0..8],
            [0u8, 0, 0, 0, 0, 0, 0, 0].as_slice(),
        ) && st.prefix.is_none() {
            st.prefix = Some((prefix_address, preferred, valid));
        }
    } else if kind == 5 {
        if len != 8 {
            return None;
        }
        let advertised = read_be32(option, 4);
        if advertised >= 1280 {
            st.mtu = if advertised < 1500 { advertised as u16 } else { 1500 };
        }
    }
    Some(st)
}

/// Applies the options in `b` in order.
fn fold_options(b: &[u8], st: RaState, source_mac: &[u8; 6]) -> (r: Option<RaState>)
    ensures
        match (r, spec_fold_options(b@, ra_model(st), source_mac@)) {
            (Some(n), Some(m)) => ra_model(n) == m,
            (None, None) => true,
            _ => false,
        },
{
    let ghost target = spec_fold_options(b@, ra_model(st), source_mac@);
    let mut rest = b;
    let mut cur = st;
    while rest.len() > 0
        invariant
            target == spec_fold_options(b@, ra_model(st), source_mac@),
            spec_fold_options(rest@, ra_model(cur), source_mac@) == target,
        decreases rest@.len(),
    {
        let len = match next_option(rest) {
            None => return None,
            Some(len) => len,
        };
        cur = match ra_option(cur, &rest[0..len], source_mac) {
            None => return None,
            Some(n) => n,
        };
        rest = &rest[len..rest.len()];
    }
    Some(cur)
}

pub fn router_advertisement(packet: &Packet, local: Address, tick: u64) -> (r: Option<Route>)
    requires
        packet.payload@.len() <= FRAME_CAPACITY,
    ensures
        match (r, spec_router_advertisement(info_of(*packet), local@, tick)) {
            (Some(route), Some(i)) => route_info(route) == i,
            (None, None) => true,
            _ => false,
        },
{
    let body = packet.payload;
    if packet.next_header != 58 || packet.hop_limit != 255 || !is_link_local(packet.source) || !(
    address_eq(&packet.destination, &ALL_NODES) || address_eq(&packet.destination, &local))
        || body.len() < 16 || body[0] != 134 || body[1] != 0 || !valid_transport(packet) {
        return None;
    }
    let lifetime = read_be16(body, 6);
    if lifetime == 0 {
        return None;
    }
    let init = RaState { prefix: None, mac: None, mtu: 1280 };
    let st = match fold_options(&body[16..body.len()], init, &packet.source_mac) {
        None => return None,
        Some(st) => st,
    };
    let mtu = st.mtu;
    let (prefix_address, preferred, valid) = match st.prefix {
        None => return None,
        Some(p) => p,
    };
    let router_mac = match st.mac {
        None => return None,
        Some(m) => m,
    };
    let address = [
        prefix_address[0], prefix_address[1], prefix_address[2], prefix_address[3],
        prefix_address[4], prefix_address[5], prefix_address[6], prefix_address[7], local[8],
        local[9], local[10], local[11], local[12], local[13], local[14], local[15],
    ];
    assert(address@ =~= prefix_address@.subrange(0, 8) + local@.subrange(8, 16));
    Some(
        Route {
            address,
            router: packet.source,
            router_mac,
            mtu,
            preferred_until: deadline(tick, preferred),
            valid_until: deadline(tick, valid),
            router_until: deadline(tick, lifetime as u32),
        },
    )
}


#[derive(Debug, Clone, Copy, PartialEq, Eq, Structural)]
pub enum State {
    LinkLocalDad,
    RouterSolicitation,
    GlobalDad,
    Ready,
    Duplicate,
    Unavailable,
}

pub struct Host {
    pub state: State,
    pub link_local: Address,
    pub route: Option<Route>,
    pub echo_reply: bool,
    pub mac: [u8; 6],
    pub deadline: u64,
    pub attempts: u8,
    pub pending: bool,
    pub echo_sent: bool,
}

/// The whole state of a host, as plain values.
pub ghost struct HostModel {
    pub state: State,
    pub link_local: Seq<u8>,
    pub route: Option<RouteInfo>,
    pub echo_reply: bool,
    pub mac: Seq<u8>,
    pub deadline: u64,
    pub attempts: u8,
    pub pending: bool,
    pub echo_sent: bool,
}

/// One ICMPv6 message to send from the host's own MAC address.
pub ghost struct Message {
    pub destination_mac: Seq<u8>,
    pub source: Seq<u8>,
    pub destination: Seq<u8>,
    pub hop_limit: u8,
    pub body: Seq<u8>,
}

/// `n` ticks after `tick`, saturating.
pub open spec fn tick_after(tick: u64, n: u64) -> u64 {
    if tick + n > u64::MAX {
        u64::MAX
    } else {
        (tick + n) as u64
    }
}

pub open spec fn neighbor_solicitation(target: Seq<u8>) -> Seq<u8> {
    seq![135u8, 0, 0, 0, 0, 0, 0, 0] + target
}

pub open spec fn router_solicitation(mac: Seq<u8>) -> Seq<u8> {
    seq![133u8, 0, 0, 0, 0, 0, 0, 0, 1, 1] + mac
}

/// The echo request a configured host sends its router once.
pub open spec fn echo_probe() -> Seq<u8> {
    seq![128u8, 0, 0, 0, 0x47, 0x36, 0, 1, 71, 101, 110, 79, 83, 54]
}

pub open spec fn neighbor_advertisement(flags: u8, target: Seq<u8>, mac: Seq<u8>) -> Seq<u8> {
    seq![136u8, 0, 0, 0, flags, 0, 0, 0] + target + seq![2u8, 1] + mac
}

/// The expiry of timers and of the route at `tick`.
pub open spec fn poll_timers(h: HostModel, tick: u64) -> HostModel {
    let h1 = if !h.pending && tick >= h.deadline {
        match h.state {
            State::LinkLocalDad => HostModel { state: State::RouterSolicitation, pending: true, ..h },
            State::GlobalDad => HostModel { state: State::Ready, ..h },
            State::RouterSolicitation => if h.attempts >= 3 {
                HostModel { state: State::Unavailable, ..h }
            } else {
                HostModel { pending: true, ..h }
            },
            _ => h,
        }
    } else {
        h
    };
    if h1.state == State::Ready && h1.route is Some && (tick >= h1.route->0.valid_until || tick
        >= h1.route->0.router_until) {
        HostModel {
            route: None,
            state: State::RouterSolicitation,
            pending: true,
            attempts: 0,
            echo_reply: false,
            echo_sent: false,
            ..h1
        }
    } else {
        h1
    }
}

/// One poll with a full-size output buffer: the next state and the message
/// sent, at most one.
pub open spec fn spec_poll(h: HostModel, tick: u64) -> (HostModel, Option<Message>) {
    let h1 = poll_timers(h, tick);
    let h2 = HostModel { pending: false, ..h1 };
    if h1.pending && (h1.state == State::LinkLocalDad || h1.state == State::GlobalDad) {
        if h1.state == State::GlobalDad && h1.route is None {
            (h2, None)
        } else {
            let target = if h1.state == State::LinkLocalDad {
                h1.link_local
            } else {
                h1.route->0.address
            };
            let d = spec_solicited_node(target);
            (
                HostModel { deadline: tick_after(tick, DAD_TICKS), ..h2 },
                Some(
                    Message {
                        destination_mac: spec_multicast_mac(d),
                        source: UNSPECIFIED@,
                        destination: d,
                        hop_limit: 255,
                        body: neighbor_solicitation(target),
                    },
                ),
            )
        }
    } else if h1.pending && h1.state == State::RouterSolicitation {
        (
            HostModel {
                attempts: (h1.attempts + 1) as u8,
                deadline: tick_after(tick, RS_TICKS),
                ..h2
            },
            Some(
                Message {
                    destination_mac: spec_multicast_mac(ALL_ROUTERS@),
                    source: h1.link_local,
                    destination: ALL_ROUTERS@,
                    hop_limit: 255,
                    body: router_solicitation(h1.mac),
                },
            ),
        )
    } else if h2.state == State::Ready && !h2.echo_sent {
        if h2.route is None {
            (h2, None)
        } else {
            let r = h2.route->0;
            (
                HostModel { echo_sent: true, ..h2 },
                Some(
                    Message {
                        destination_mac: r.router_mac,
                        source: r.address,
                        destination: r.router,
                        hop_limit: 64,
                        body: echo_probe(),
                    },
                ),
            )
        }
    } else {
        (h2, None)
    }
}

/// What sending `m` into `before` gives: nothing written without a message.
pub open spec fn sent(r: Option<usize>, before: Seq<u8>, after: Seq<u8>, mac: Seq<u8>, m: Option<Message>) -> bool {
    match m {
        None => r is None && after == before,
        Some(m) => write_outcome(r, before, after, mac, m.destination_mac, m.source, m.destination, m.hop_limit, m.body),
    }
}

/// The link-layer address options after a neighbor message's fixed part:
/// `None` when an option is malformed or a source or target link-layer
/// option is not 8 bytes naming `source_mac`; otherwise whether a source
/// link-layer option appeared.
pub open spec fn spec_nd_links(b: Seq<u8>, source_mac: Seq<u8>, seen: bool) -> Option<bool>
    decreases b.len(),
{
    if b.len() == 0 {
        Some(seen)
    } else if b.len() < 2 || b[1] == 0 || b[1] * 8 > b.len() {
        None
    } else {
        let o = b.subrange(0, b[1] * 8);
        if (o[0] == 1 || o[0] == 2) && (o.len() != 8 || o.subrange(2, 8) != source_mac) {
            None
        } else {
            spec_nd_links(b.subrange(b[1] * 8, b.len() as int), source_mac, seen || o[0] == 1)
        }
    }
}

/// The address the host is probing for duplicates, if any.
pub open spec fn tentative(h: HostModel) -> Option<Seq<u8>> {
    match h.state {
        State::LinkLocalDad => Some(h.link_local),
        State::GlobalDad => match h.route {
            Some(r) => Some(r.address),
            None => None,
        },
        _ => None,
    }
}

pub open spec fn route_has(h: HostModel, a: Seq<u8>) -> bool {
    h.route is Some && h.route->0.address == a
}

/// A neighbor solicitation or advertisement; `None` leaves the packet to the
/// echo rules.
pub open spec fn spec_neighbor(h: HostModel, p: PacketInfo) -> Option<(HostModel, Option<Message>)> {
    let body = p.payload;
    if body[0] != 135 && body[0] != 136 {
        None
    } else if p.hop_limit != 255 || body[1] != 0 || body.len() < 24 {
        Some((h, None))
    } else {
        let target = body.subrange(8, 24);
        if spec_is_multicast(target) || target == UNSPECIFIED@ {
            Some((h, None))
        } else if p.destination != h.link_local && p.destination != ALL_NODES@ && p.destination
            != spec_solicited_node(target) && !route_has(h, p.destination) {
            Some((h, None))
        } else {
            match spec_nd_links(body.subrange(24, body.len() as int), p.source_mac, false) {
                None => Some((h, None)),
                Some(source_option) => if body[0] == 135 && p.source == UNSPECIFIED@ && (
                p.destination != spec_solicited_node(target) || source_option) {
                    Some((h, None))
                } else if body[0] == 136 && (p.source == UNSPECIFIED@ || (spec_is_multicast(
                    p.destination,
                ) && (body[4] / 64) % 2 == 1)) {
                    Some((h, None))
                } else if tentative(h) == Some(target) && (body[0] == 136 || p.source
                    == UNSPECIFIED@) {
                    Some((HostModel { state: State::Duplicate, route: None, ..h }, None))
                } else if body[0] == 135 && h.state != State::LinkLocalDad && h.state
                    != State::Duplicate && (target == h.link_local || (h.state == State::Ready
                    && route_has(h, target))) && (p.destination == target || p.destination
                    == spec_solicited_node(target)) {
                    let d = if p.source == UNSPECIFIED@ {
                        ALL_NODES@
                    } else {
                        p.source
                    };
                    let flags: u8 = if p.source == UNSPECIFIED@ {
                        0x20
                    } else {
                        0x60
                    };
                    Some(
                        (
                            h,
                            Some(
                                Message {
                                    destination_mac: if spec_is_multicast(d) {
                                        spec_multicast_mac(d)
                                    } else {
                                        p.source_mac
                                    },
                                    source: target,
                                    destination: d,
                                    hop_limit: 255,
                                    body: neighbor_advertisement(flags, target, h.mac),
                                },
                            ),
                        ),
                    )
                } else {
                    None
                },
            }
        }
    }
}

/// An echo reply from the router answering the host's probe.
pub open spec fn answers_probe(b: Seq<u8>) -> bool {
    b.len() == 14 && b[0] == 129 && b[1] == 0 && b.subrange(4, 14) == echo_probe().subrange(4, 14)
}

/// The echo rules of a configured host.
pub open spec fn spec_echo(h: HostModel, p: PacketInfo) -> (HostModel, Option<Message>) {
    let body = p.payload;
    if h.state != State::Ready || h.route is None {
        (h, None)
    } else {
        let r = h.route->0;
        let h2 = if answers_probe(body) && h.echo_sent && p.source == r.router && p.destination
            == r.address {
            HostModel { echo_reply: true, ..h }
        } else {
            h
        };
        if body[0] == 128 && body[1] == 0 && 8 <= body.len() <= 128 && p.source != UNSPECIFIED@
            && !spec_is_multicast(p.source) && (p.destination == r.address || p.destination
            == h.link_local) {
            (
                h2,
                Some(
                    Message {
                        destination_mac: p.source_mac,
                        source: p.destination,
                        destination: p.source,
                        hop_limit: 64,
                        body: body.update(0, 129),
                    },
                ),
            )
        } else {
            (h2, None)
        }
    }
}

/// One received frame: the next state and the reply, at most one. Nothing
/// changes unless the frame is a valid ICMPv6 packet addressed to this host
/// from another one.
pub open spec fn spec_receive(h: HostModel, frame: Seq<u8>, tick: u64) -> (HostModel, Option<Message>) {
    match spec_parse_frame(frame) {
        None => (h, None),
        Some(p) => {
            let eth = frame.subrange(0, 6);
            if p.source_mac[0] % 2 == 1 || (if spec_is_multicast(p.destination) {
                eth != spec_multicast_mac(p.destination)
            } else {
                eth != h.mac
            }) {
                (h, None)
            } else if p.source_mac == h.mac || p.next_header != 58 || !spec_valid_transport(p) {
                (h, None)
            } else if h.state == State::RouterSolicitation && spec_router_advertisement(
                p,
                h.link_local,
                tick,
            ) is Some {
                (
                    HostModel {
                        route: spec_router_advertisement(p, h.link_local, tick),
                        state: State::GlobalDad,
                        pending: true,
                        ..h
                    },
                    None,
                )
            } else {
                match spec_neighbor(h, p) {
                    Some(x) => x,
                    None => spec_echo(h, p),
                }
            }
        },
    }
}

/// A host that probes no address while blocked and counts at most three
/// router solicitations.
pub open spec fn host_wf(h: HostModel) -> bool {
    &&& h.attempts <= 3
    &&& h.state == State::LinkLocalDad ==> h.attempts == 0
    &&& h.state == State::RouterSolicitation && h.pending ==> h.attempts < 3
}

impl Host {
    pub open spec fn model(&self) -> HostModel {
        HostModel {
            state: self.state,
            link_local: self.link_local@,
            route: match self.route {
                None => None,
                Some(r) => Some(route_info(r)),
            },
            echo_reply: self.echo_reply,
            mac: self.mac@,
            deadline: self.deadline,
            attempts: self.attempts,
            pending: self.pending,
            echo_sent: self.echo_sent,
        }
    }

    pub fn new(mac: [u8; 6], tick: u64) -> (h: Host)
        ensures
            host_wf(h.model()),
            h.model() == (HostModel {
                state: State::LinkLocalDad,
                link_local: spec_link_local(mac@),
                route: None,
                echo_reply: false,
                mac: mac@,
                deadline: tick_after(tick, DAD_TICKS),
                attempts: 0,
                pending: true,
                echo_sent: false,
            }),
    {
        Host {
            state: State::LinkLocalDad,
            link_local: link_local(mac),
            route: None,
            echo_reply: false,
            mac,
            deadline: tick.saturating_add(DAD_TICKS),
            attempts: 0,
            pending: true,
            echo_sent: false,
        }
    }

    /// Produces at most one control frame per call; `tick` is the 100 Hz
    /// monotonic clock. A buffer shorter than a full frame leaves the host
    /// untouched, so a pending probe is not lost.
    pub fn poll(&mut self, tick: u64, output: &mut [u8]) -> (r: Option<usize>)
        requires
            host_wf(old(self).model()),
        ensures
            host_wf(final(self).model()),
            old(output)@.len() < FRAME_CAPACITY ==> r is None && final(self).model() == old(self).model()
                && final(output)@ == old(output)@,
            old(output)@.len() >= FRAME_CAPACITY ==> final(self).model() == spec_poll(old(self).model(), tick).0
                && sent(r, old(output)@, final(output)@, old(self).model().mac, spec_poll(old(self).model(), tick).1),
    {
        if output.len() < FRAME_CAPACITY {
            return None;
        }
        if !self.pending && tick >= self.deadline {
            match self.state {
                State::LinkLocalDad => {
                    self.state = State::RouterSolicitation;
                    self.pending = true;
                },
                State::GlobalDad => {
                    self.state = State::Ready;
                },
                State::RouterSolicitation => {
                    if self.attempts >= 3 {
                        self.state = State::Unavailable;
                    } else {
                        self.pending = true;
                    }
                },
                _ => {},
            }
        }
        if self.state == State::Ready {
            match self.route {
                Some(r) => {
                    if tick >= r.valid_until || tick >= r.router_until {
                        self.route = None;
                        self.state = State::RouterSolicitation;
                        self.pending = true;
                        self.attempts = 0;
                        self.echo_reply = false;
                        self.echo_sent = false;
                    }
                },
                None => {},
            }
        }
        if self.pending {
            self.pending = false;
            if self.state == State::LinkLocalDad || self.state == State::GlobalDad {
                let t = if self.state == State::LinkLocalDad {
                    self.link_local
                } else {
                    match self.route {
                        None => return None,
                        Some(r) => r.address,
                    }
                };
                let destination = solicited_node(t);
                let ns = [
                    135u8, 0, 0, 0, 0, 0, 0, 0, t[0], t[1], t[2], t[3], t[4], t[5], t[6], t[7], t[8],
                    t[9], t[10], t[11], t[12], t[13], t[14], t[15],
                ];
                assert(ns@ =~= neighbor_solicitation(t@));
                self.deadline = tick.saturating_add(DAD_TICKS);
                return write_icmp(
                    output,
                    self.mac,
                    multicast_mac(destination),
                    UNSPECIFIED,
                    destination,
                    255,
                    ns.as_slice(),
                );
            } else if self.state == State::RouterSolicitation {
                let m = self.mac;
                let rs = [133u8, 0, 0, 0, 0, 0, 0, 0, 1, 1, m[0], m[1], m[2], m[3], m[4], m[5]];
                assert(rs@ =~= router_solicitation(m@));
                self.attempts = self.attempts + 1;
                self.deadline = tick.saturating_add(RS_TICKS);
                return write_icmp(
                    output,
                    self.mac,
                    multicast_mac(ALL_ROUTERS),
                    self.link_local,
                    ALL_ROUTERS,
                    255,
                    rs.as_slice(),
                );
            }
        }
        if self.state == State::Ready && !self.echo_sent {
            let route = match self.route {
                None => return None,
                Some(r) => r,
            };
            self.echo_sent = true;
            let probe = [128u8, 0, 0, 0, 0x47, 0x36, 0, 1, 71, 101, 110, 79, 83, 54];
            assert(probe@ =~= echo_probe());
            return write_icmp(
                output,
                self.mac,
                route.router_mac,
                route.address,
                route.router,
                64,
                probe.as_slice(),
            );
        }
        None
    }
}


/// Checks the link-layer address options of a neighbor message.
fn nd_links(b: &[u8], source_mac: &[u8; 6]) -> (r: Option<bool>)
    ensures
        r == spec_nd_links(b@, source_mac@, false),
{
    let ghost target = spec_nd_links(b@, source_mac@, false);
    let mut rest = b;
    let mut seen = false;
    while rest.len() > 0
        invariant
            target == spec_nd_links(b@, source_mac@, false),
            spec_nd_links(rest@, source_mac@, seen) == target,
        decreases rest@.len(),
    {
        let len = match next_option(rest) {
            None => return None,
            Some(len) => len,
        };
        let kind = rest[0];
        if (kind == 1 || kind == 2) && (len != 8 || !crate::strings::bytes_equal(
            &rest[2..8],
            source_mac.as_slice(),
        )) {
            proof {
                if len == 8 {
                    assert(rest@.subrange(0, 8).subrange(2, 8) =~= rest@.subrange(2, 8));
                }
            }
            return None;
        }
        proof {
            if (kind == 1 || kind == 2) {
                assert(rest@.subrange(0, 8).subrange(2, 8) =~= rest@.subrange(2, 8));
            }
        }
        seen = seen || kind == 1;
        rest = &rest[len..rest.len()];
    }
    Some(seen)
}

/// `body` with its type changed to an echo reply.
fn echo_answer(body: &[u8]) -> (v: Vec<u8>)
    requires
        body@.len() > 0,
    ensures
        v@ == body@.update(0, 129),
{
    let mut v: Vec<u8> = Vec::new();
    v.push(129);
    let mut i: usize = 1;
    while i < body.len()
        invariant
            1 <= i <= body@.len(),
            v@ == body@.update(0, 129).subrange(0, i as int),
        decreases body@.len() - i,
    {
        v.push(body[i]);
        i += 1;
        assert(v@ =~= body@.update(0, 129).subrange(0, i as int));
    }
    assert(v@ =~= body@.update(0, 129));
    v
}

impl Host {
    /// Handles a neighbor solicitation or advertisement; `None` leaves the
    /// packet to the echo rules.
    fn neighbor(&mut self, packet: &Packet, output: &mut [u8]) -> (r: Option<Option<usize>>)
        requires
            host_wf(old(self).model()),
            packet.payload@.len() >= 4,
        ensures
            host_wf(final(self).model()),
            match spec_neighbor(old(self).model(), info_of(*packet)) {
                None => r is None && final(self).model() == old(self).model() && final(output)@
                    == old(output)@,
                Some((h, m)) => r is Some && final(self).model() == h && sent(r->0, old(output)@, final(output)@, old(self).model().mac, m),
            },
    {
        let body = packet.payload;
        let n = body.len();
        if body[0] != 135 && body[0] != 136 {
            return None;
        }
        if packet.hop_limit != 255 || body[1] != 0 || n < 24 {
            return Some(None);
        }
        let t = copy_address(body, 8);
        if is_multicast(t) || address_eq(&t, &UNSPECIFIED) {
            return Some(None);
        }
        let solicited = solicited_node(t);
        let to_route = match self.route {
            Some(r) => address_eq(&r.address, &packet.destination),
            None => false,
        };
        if !address_eq(&packet.destination, &self.link_local) && !address_eq(&packet.destination, &ALL_NODES)
            && !address_eq(&packet.destination, &solicited) && !to_route {
            return Some(None);
        }
        let source_option = match nd_links(&body[24..n], &packet.source_mac) {
            None => return Some(None),
            Some(s) => s,
        };
        let unspecified_source = address_eq(&packet.source, &UNSPECIFIED);
        if body[0] == 135 && unspecified_source && (!address_eq(&packet.destination, &solicited)
            || source_option) {
            return Some(None);
        }
        let flag_byte = body[4];
        let solicited_flag = (flag_byte / 64) % 2 == 1;
        if body[0] == 136 && (unspecified_source || (is_multicast(packet.destination)
            && solicited_flag)) {
            return Some(None);
        }
        let is_tentative = match self.state {
            State::LinkLocalDad => address_eq(&self.link_local, &t),
            State::GlobalDad => match self.route {
                Some(r) => address_eq(&r.address, &t),
                None => false,
            },
            _ => false,
        };
        if is_tentative && (body[0] == 136 || unspecified_source) {
            self.state = State::Duplicate;
            self.route = None;
            return Some(None);
        }
        let route_target = match self.route {
            Some(r) => address_eq(&r.address, &t),
            None => false,
        };
        let owns_target = self.state != State::LinkLocalDad && self.state != State::Duplicate && (
        address_eq(&t, &self.link_local) || (self.state == State::Ready && route_target));
        if body[0] == 135 && owns_target && (address_eq(&packet.destination, &t) || address_eq(
            &packet.destination,
            &solicited,
        )) {
            let destination = if unspecified_source {
                ALL_NODES
            } else {
                packet.source
            };
            let destination_mac = if is_multicast(destination) {
                multicast_mac(destination)
            } else {
                packet.source_mac
            };
            let flags: u8 = if unspecified_source {
                0x20
            } else {
                0x60
            };
            let m = self.mac;
            let na = [
                136u8, 0, 0, 0, flags, 0, 0, 0, t[0], t[1], t[2], t[3], t[4], t[5], t[6], t[7], t[8],
                t[9], t[10], t[11], t[12], t[13], t[14], t[15], 2, 1, m[0], m[1], m[2], m[3], m[4], m[5],
            ];
            assert(na@ =~= neighbor_advertisement(flags, t@, m@));
            return Some(write_icmp(output, self.mac, destination_mac, t, destination, 255, na.as_slice()));
        }
        None
    }

    /// The echo rules of a configured host.
    fn echo(&mut self, packet: &Packet, output: &mut [u8]) -> (r: Option<usize>)
        requires
            host_wf(old(self).model()),
            packet.payload@.len() >= 4,
        ensures
            host_wf(final(self).model()),
            final(self).model() == spec_echo(old(self).model(), info_of(*packet)).0,
            sent(r, old(output)@, final(output)@, old(self).model().mac, spec_echo(old(self).model(), info_of(*packet)).1),
    {
        if self.state != State::Ready {
            return None;
        }
        let route = match self.route {
            None => return None,
            Some(r) => r,
        };
        let body = packet.payload;
        let n = body.len();
        if n == 14 && body[0] == 129 && body[1] == 0 && crate::strings::bytes_equal(
            &body[4..14],
            [0x47u8, 0x36, 0, 1, 71, 101, 110, 79, 83, 54].as_slice(),
        ) && self.echo_sent && address_eq(&packet.source, &route.router) && address_eq(
            &packet.destination,
            &route.address,
        ) {
            assert(echo_probe().subrange(4, 14) =~= seq![0x47u8, 0x36, 0, 1, 71, 101, 110, 79, 83, 54]);
            self.echo_reply = true;
        } else {
            assert(echo_probe().subrange(4, 14) =~= seq![0x47u8, 0x36, 0, 1, 71, 101, 110, 79, 83, 54]);
        }
        if body[0] == 128 && body[1] == 0 && 8 <= n && n <= 128 && !address_eq(
            &packet.source,
            &UNSPECIFIED,
        ) && !is_multicast(packet.source) && (address_eq(&packet.destination, &route.address)
            || address_eq(&packet.destination, &self.link_local)) {
            let reply = echo_answer(body);
            return write_icmp(
                output,
                self.mac,
                packet.source_mac,
                packet.destination,
                packet.source,
                64,
                reply.as_slice(),
            );
        }
        None
    }

    /// Validates a received frame before any state change: neighbor
    /// messages follow a strict one-interface policy, and an advertisement is
    /// only taken while soliciting a router.
    pub fn receive(&mut self, frame: &[u8], tick: u64, output: &mut [u8]) -> (r: Option<usize>)
        requires
            host_wf(old(self).model()),
        ensures
            host_wf(final(self).model()),
            final(self).model() == spec_receive(old(self).model(), frame@, tick).0,
            sent(r, old(output)@, final(output)@, old(self).model().mac, spec_receive(old(self).model(), frame@, tick).1),
    {
        let packet = match parse_frame(frame) {
            None => return None,
            Some(p) => p,
        };
        let ethernet_destination = copy_mac(frame, 0);
        let misdirected = if is_multicast(packet.destination) {
            !crate::strings::bytes_equal(
                ethernet_destination.as_slice(),
                multicast_mac(packet.destination).as_slice(),
            )
        } else {
            !crate::strings::bytes_equal(ethernet_destination.as_slice(), self.mac.as_slice())
        };
        if packet.source_mac[0] % 2 == 1 || misdirected {
            return None;
        }
        if crate::strings::bytes_equal(packet.source_mac.as_slice(), self.mac.as_slice())
            || packet.next_header != 58 || !valid_transport(&packet) {
            return None;
        }
        if self.state == State::RouterSolicitation {
            match router_advertisement(&packet, self.link_local, tick) {
                Some(route) => {
                    self.route = Some(route);
                    self.state = State::GlobalDad;
                    self.pending = true;
                    return None;
                },
                None => {},
            }
        }
        match self.neighbor(&packet, output) {
            Some(r) => r,
            None => self.echo(&packet, output),
        }
    }
}


/// An address found duplicated is never used: a duplicate host stays
/// duplicate, without a route, sends nothing on its own, and answers no
/// neighbor solicitation or echo request.
pub proof fn lemma_duplicate_is_final(h: HostModel, tick: u64, frame: Seq<u8>)
    requires
        h.state == State::Duplicate,
        h.route is None,
    ensures
        spec_poll(h, tick).0.state == State::Duplicate,
        spec_poll(h, tick).0.route is None,
        spec_poll(h, tick).1 is None,
        spec_receive(h, frame, tick).0.state == State::Duplicate,
        spec_receive(h, frame, tick).0.route is None,
        spec_receive(h, frame, tick).1 is None,
{
}

} // verus!

verus! {

/// A valid echo request: type 128, code 0, an identifier and sequence
/// number, at most 128 bytes.
pub open spec fn is_echo_request(body: Seq<u8>) -> bool {
    8 <= body.len() <= 128 && body[0] == 128 && body[1] == 0
}

/// A configured host answers every valid echo request from a unicast
/// address that is addressed to one of its own unicast addresses, its
/// link-local address included: the reply is an echo reply (type 129) with
/// the request's identifier, sequence number and data, sent back from the
/// address that was pinged to the one that pinged, at the sender's MAC.
pub proof fn lemma_echo_request_answered(h: HostModel, p: PacketInfo)
    requires
        h.state == State::Ready,
        h.route is Some,
        is_echo_request(p.payload),
        p.source != UNSPECIFIED@,
        !spec_is_multicast(p.source),
        p.destination == h.link_local || p.destination == h.route->0.address,
    ensures
        spec_echo(h, p).1 matches Some(m) && {
            &&& m.body.len() == p.payload.len()
            &&& m.body[0] == 129
            &&& m.body.subrange(1, m.body.len() as int) == p.payload.subrange(1, p.payload.len() as int)
            &&& m.source == p.destination
            &&& m.destination == p.source
            &&& m.destination_mac == p.source_mac
        },
{
    let m = spec_echo(h, p).1->0;
    assert(m.body.subrange(1, m.body.len() as int) =~= p.payload.subrange(1, p.payload.len() as int));
}

/// The host sends an echo reply only to a valid echo request addressed to
/// one of its own addresses, and only as a configured host.
pub proof fn lemma_echo_only_answers_requests(h: HostModel, p: PacketInfo)
    requires
        spec_echo(h, p).1 is Some,
    ensures
        h.state == State::Ready && h.route is Some,
        is_echo_request(p.payload),
        p.destination == h.link_local || p.destination == h.route->0.address,
        spec_echo(h, p).1->0.body[0] == 129,
        spec_echo(h, p).1->0.source == p.destination,
        spec_echo(h, p).1->0.destination == p.source,
{
}

/// A received frame that carries such an echo request, sent by another
/// host to this host's MAC, is answered with an echo reply from the
/// pinged address back to the sender.
pub proof fn lemma_receive_answers_echo(h: HostModel, frame: Seq<u8>, tick: u64)
    requires
        spec_parse_frame(frame) is Some,
        ({
            let p = spec_parse_frame(frame)->0;
            &&& p.source_mac[0] % 2 == 0
            &&& p.source_mac != h.mac
            &&& !spec_is_multicast(p.destination)
            &&& frame.subrange(0, 6) == h.mac
            &&& p.next_header == 58
            &&& spec_valid_transport(p)
            &&& h.state == State::Ready
            &&& h.route is Some
            &&& is_echo_request(p.payload)
            &&& p.source != UNSPECIFIED@
            &&& !spec_is_multicast(p.source)
            &&& (p.destination == h.link_local || p.destination == h.route->0.address)
        }),
    ensures
        ({
            let p = spec_parse_frame(frame)->0;
            spec_receive(h, frame, tick).1 matches Some(m) && m.body[0] == 129 && m.source == p.destination
                && m.destination == p.source
        }),
{
    let p = spec_parse_frame(frame)->0;
    assert(spec_neighbor(h, p) is None);
    lemma_echo_request_answered(h, p);
}

} // verus!
