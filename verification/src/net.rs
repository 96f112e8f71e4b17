//! IPv4, UDP and TCP framing and the Internet checksum.
use vstd::prelude::*;
use crate::wire::{be16, be32, read_be16, read_be32};

verus! {

pub const ETHERNET_HEADER_BYTES: usize = 14;
pub const IPV4_HEADER_BYTES: usize = 20;
pub const UDP_HEADER_BYTES: usize = 8;
pub const TCP_HEADER_BYTES: usize = 20;

#[derive(Clone, Copy, Debug, PartialEq, Eq)]
pub struct Ipv4Packet<'a> {
    pub source_mac: [u8; 6],
    pub source: [u8; 4],
    pub destination: [u8; 4],
    pub protocol: u8,
    pub payload: &'a [u8],
}

#[derive(Clone, Copy, Debug, PartialEq, Eq)]
pub struct UdpPacket<'a> {
    pub source_port: u16,
    pub destination_port: u16,
    pub payload: &'a [u8],
}

#[derive(Clone, Copy, Debug, PartialEq, Eq)]
pub struct TcpPacket<'a> {
    pub source_port: u16,
    pub destination_port: u16,
    pub sequence: u32,
    pub acknowledgment: u32,
    pub flags: u8,
    pub window: u16,
    pub payload: &'a [u8],
}

/// Sum of the first `k` big-endian 16-bit words of `b`.
pub open spec fn words(b: Seq<u8>, k: int) -> int
    decreases k,
{
    if k <= 0 {
        0
    } else {
        words(b, k - 1) + be16(b, 2 * (k - 1))
    }
}

/// Sum of all words of `b`, an odd final byte padded with a zero.
pub open spec fn word_sum(b: Seq<u8>) -> int {
    words(b, (b.len() / 2) as int) + if b.len() % 2 == 1 {
        256 * b[b.len() - 1]
    } else {
        0
    }
}

/// End-around-carry folding to 16 bits.
pub open spec fn fold(s: nat) -> nat
    decreases s,
{
    if s < 0x10000 {
        s
    } else {
        fold(s % 0x10000 + s / 0x10000)
    }
}

/// The Internet checksum of `b`, with the 32-bit accumulator wrapping.
pub open spec fn spec_checksum(b: Seq<u8>) -> u16 {
    !(fold((word_sum(b) % 0x1_0000_0000) as nat) as u16)
}

proof fn lemma_words_bound(b: Seq<u8>, k: int)
    requires
        0 <= k,
        2 * k <= b.len(),
    ensures
        0 <= words(b, k) <= 0xffff * k,
    decreases k,
{
    if k > 0 {
        lemma_words_bound(b, k - 1);
    }
}

/// Folds a 32-bit accumulator to 16 bits.
fn fold_u32(sum: u32) -> (r: u16)
    ensures
        r == fold(sum as nat),
{
    let mut s = sum;
    while s >> 16u32 != 0
        invariant
            fold(s as nat) == fold(sum as nat),
        decreases s,
    {
        let lo = s & 0xffff;
        let hi = s >> 16u32;
        assert(lo == s % 0x10000 && hi == s / 0x10000) by (bit_vector)
            requires
                lo == s & 0xffff,
                hi == s >> 16u32,
        ;
        s = lo + hi;
    }
    assert(s >> 16u32 == 0 ==> s < 0x10000) by (bit_vector);
    s as u16
}

/// Adds the words of `bytes` to a wrapping 32-bit accumulator.
fn add_words(start: u32, bytes: &[u8]) -> (r: u32)
    ensures
        r == (start + word_sum(bytes@)) % 0x1_0000_0000,
{
    let mut sum = start;
    let len = bytes.len();
    let n = len / 2;
    let mut i: usize = 0;
    while i < n
        invariant
            len == bytes@.len(),
            n == len / 2,
            i <= n,
            sum == (start + words(bytes@, i as int)) % 0x1_0000_0000,
        decreases n - i,
    {
        let w = read_be16(bytes, 2 * i);
        sum = sum.wrapping_add(w as u32);
        i += 1;
    }
    if bytes.len() % 2 == 1 {
        let last = bytes[bytes.len() - 1];
        sum = sum.wrapping_add((last as u32) * 256);
    }
    sum
}

pub fn checksum(bytes: &[u8]) -> (r: u16)
    ensures
        r == spec_checksum(bytes@),
{
    let sum = add_words(0, bytes);
    !fold_u32(sum)
}

/// Whether a TCP or UDP segment's checksum over the IPv4 pseudo-header
/// holds; a UDP segment without a checksum is accepted.
pub open spec fn spec_transport_checksum_valid(
    source: Seq<u8>,
    destination: Seq<u8>,
    protocol: u8,
    segment: Seq<u8>,
) -> bool {
    if segment.len() > 0xffff {
        false
    } else if protocol == 17 && segment.len() >= 8 && segment[6] == 0 && segment[7] == 0 {
        true
    } else {
        fold(
            ((word_sum(source) + word_sum(destination) + protocol + segment.len() + word_sum(
                segment,
            )) % 0x1_0000_0000) as nat,
        ) == 0xffff
    }
}

pub fn transport_checksum_valid(
    source: [u8; 4],
    destination: [u8; 4],
    protocol: u8,
    segment: &[u8],
) -> (r: bool)
    ensures
        r == spec_transport_checksum_valid(source@, destination@, protocol, segment@),
{
    let len = segment.len();
    if len > 0xffff {
        return false;
    }
    if protocol == 17 && len >= 8 && segment[6] == 0 && segment[7] == 0 {
        return true;
    }
    let s1 = add_words(0, source.as_slice());
    let s2 = add_words(s1, destination.as_slice());
    proof {
        lemma_words_bound(source@, 2);
        lemma_words_bound(destination@, 2);
    }
    let s3 = s2 + protocol as u32 + len as u32;
    let sum = add_words(s3, segment);
    fold_u32(sum) == 0xffff
}

/// What an accepted IPv4 frame carries.
pub ghost struct Ipv4Info {
    pub source_mac: Seq<u8>,
    pub source: Seq<u8>,
    pub destination: Seq<u8>,
    pub protocol: u8,
    pub payload: Seq<u8>,
}

/// An unfragmented IPv4 datagram in an Ethernet frame with a valid header
/// checksum, cut to its total length.
pub open spec fn spec_parse_ipv4(frame: Seq<u8>) -> Option<Ipv4Info> {
    if frame.len() < ETHERNET_HEADER_BYTES + IPV4_HEADER_BYTES || be16(frame, 12) != 0x0800 {
        None
    } else {
        let ip = frame.subrange(14, frame.len() as int);
        let header_len = (ip[0] % 16) * 4;
        let total_len = be16(ip, 2);
        if ip[0] / 16 != 4 {
            None
        } else if header_len < IPV4_HEADER_BYTES || header_len > ip.len() || total_len
            < header_len || total_len > ip.len() || spec_checksum(ip.subrange(0, header_len))
            != 0 {
            None
        } else if be16(ip, 6) % 0x4000 != 0 {
            None
        } else {
            Some(
                Ipv4Info {
                    source_mac: frame.subrange(6, 12),
                    source: ip.subrange(12, 16),
                    destination: ip.subrange(16, 20),
                    protocol: ip[9],
                    payload: ip.subrange(header_len, total_len),
                },
            )
        }
    }
}

pub open spec fn ipv4_matches(p: Ipv4Packet, i: Ipv4Info) -> bool {
    &&& p.source_mac@ == i.source_mac
    &&& p.source@ == i.source
    &&& p.destination@ == i.destination
    &&& p.protocol == i.protocol
    &&& p.payload@ == i.payload
}

pub fn parse_ipv4_frame<'a>(frame: &'a [u8]) -> (r: Option<Ipv4Packet<'a>>)
    ensures
        match (r, spec_parse_ipv4(frame@)) {
            (Some(p), Some(i)) => ipv4_matches(p, i),
            (None, None) => true,
            _ => false,
        },
{
    let len = frame.len();
    if len < ETHERNET_HEADER_BYTES + IPV4_HEADER_BYTES || read_be16(frame, 12) != 0x0800 {
        return None;
    }
    let ip = &frame[14..len];
    let ghost ipv = frame@.subrange(14, len as int);
    assert(ip@ == ipv);
    let first = ip[0];
    let version = first >> 4u8;
    let ihl = first & 0x0f;
    assert(version == first / 16 && ihl == first % 16) by (bit_vector)
        requires
            version == first >> 4u8,
            ihl == first & 0x0f,
    ;
    if version != 4 {
        return None;
    }
    let header_len = ihl as usize * 4;
    let total_len = read_be16(ip, 2) as usize;
    if header_len < IPV4_HEADER_BYTES || header_len > ip.len() || total_len < header_len
        || total_len > ip.len() || checksum(&ip[0..header_len]) != 0 {
        return None;
    }
    let fragment = read_be16(ip, 6);
    let f = fragment & 0x3fff;
    assert(f == fragment % 0x4000) by (bit_vector)
        requires
            f == fragment & 0x3fff,
    ;
    if f != 0 {
        return None;
    }
    let r = Ipv4Packet {
        source_mac: [frame[6], frame[7], frame[8], frame[9], frame[10], frame[11]],
        source: [ip[12], ip[13], ip[14], ip[15]],
        destination: [ip[16], ip[17], ip[18], ip[19]],
        protocol: ip[9],
        payload: &ip[header_len..total_len],
    };
    assert(r.source_mac@ =~= frame@.subrange(6, 12));
    assert(r.source@ =~= ip@.subrange(12, 16));
    assert(r.destination@ =~= ip@.subrange(16, 20));
    Some(r)
}

/// A UDP datagram whose length field fits the payload.
pub open spec fn spec_parse_udp(p: Seq<u8>) -> Option<(u16, u16, Seq<u8>)> {
    if p.len() < UDP_HEADER_BYTES || be16(p, 4) < UDP_HEADER_BYTES || be16(p, 4) > p.len() {
        None
    } else {
        Some((be16(p, 0) as u16, be16(p, 2) as u16, p.subrange(8, be16(p, 4))))
    }
}

pub fn parse_udp<'a>(payload: &'a [u8]) -> (r: Option<UdpPacket<'a>>)
    ensures
        match (r, spec_parse_udp(payload@)) {
            (Some(u), Some((s, d, body))) => u.source_port == s && u.destination_port == d
                && u.payload@ == body,
            (None, None) => true,
            _ => false,
        },
{
    let n = payload.len();
    if n < UDP_HEADER_BYTES {
        return None;
    }
    let len = read_be16(payload, 4) as usize;
    if len < UDP_HEADER_BYTES || len > n {
        return None;
    }
    Some(
        UdpPacket {
            source_port: read_be16(payload, 0),
            destination_port: read_be16(payload, 2),
            payload: &payload[UDP_HEADER_BYTES..len],
        },
    )
}

/// What an accepted TCP segment carries.
pub ghost struct TcpInfo {
    pub source_port: u16,
    pub destination_port: u16,
    pub sequence: u32,
    pub acknowledgment: u32,
    pub flags: u8,
    pub window: u16,
    pub payload: Seq<u8>,
}

/// A TCP segment whose data offset lies inside the segment.
pub open spec fn spec_parse_tcp(p: Seq<u8>) -> Option<TcpInfo> {
    if p.len() < TCP_HEADER_BYTES || (p[12] / 16) * 4 < TCP_HEADER_BYTES || (p[12] / 16) * 4
        > p.len() {
        None
    } else {
        Some(
            TcpInfo {
                source_port: be16(p, 0) as u16,
                destination_port: be16(p, 2) as u16,
                sequence: be32(p, 4) as u32,
                acknowledgment: be32(p, 8) as u32,
                flags: p[13],
                window: be16(p, 14) as u16,
                payload: p.subrange((p[12] / 16) * 4, p.len() as int),
            },
        )
    }
}

pub open spec fn tcp_matches(t: TcpPacket, i: TcpInfo) -> bool {
    &&& t.source_port == i.source_port
    &&& t.destination_port == i.destination_port
    &&& t.sequence == i.sequence
    &&& t.acknowledgment == i.acknowledgment
    &&& t.flags == i.flags
    &&& t.window == i.window
    &&& t.payload@ == i.payload
}

pub fn parse_tcp<'a>(payload: &'a [u8]) -> (r: Option<TcpPacket<'a>>)
    ensures
        match (r, spec_parse_tcp(payload@)) {
            (Some(t), Some(i)) => tcp_matches(t, i),
            (None, None) => true,
            _ => false,
        },
{
    let n = payload.len();
    if n < TCP_HEADER_BYTES {
        return None;
    }
    let byte = payload[12];
    let offset = byte >> 4u8;
    assert(offset == byte / 16) by (bit_vector)
        requires
            offset == byte >> 4u8,
    ;
    let header_len = offset as usize * 4;
    if header_len < TCP_HEADER_BYTES || header_len > n {
        return None;
    }
    Some(
        TcpPacket {
            source_port: read_be16(payload, 0),
            destination_port: read_be16(payload, 2),
            sequence: read_be32(payload, 4),
            acknowledgment: read_be32(payload, 8),
            flags: payload[13],
            window: read_be16(payload, 14),
            payload: &payload[header_len..n],
        },
    )
}

/// Folding keeps the value modulo 65535 and yields at most 16 bits.
pub proof fn lemma_fold_congruent(s: nat)
    ensures
        fold(s) % 0xffff == s % 0xffff,
        fold(s) <= 0xffff,
    decreases s,
{
    if s >= 0x10000 {
        let t = s % 0x10000 + s / 0x10000;
        assert(t % 0xffff == s % 0xffff && t < s) by (nonlinear_arith)
            requires
                t == s % 0x10000 + s / 0x10000,
                s >= 0x10000,
        ;
        lemma_fold_congruent(t);
    }
}

/// The sender hardware address of an ARP reply in which `sender` answers
/// `target`.
pub open spec fn spec_parse_arp_reply(frame: Seq<u8>, sender: Seq<u8>, target: Seq<u8>) -> Option<Seq<u8>> {
    if frame.len() >= 42 && be16(frame, 12) == 0x0806 && be16(frame, 20) == 2 && frame.subrange(28, 32) == sender
        && frame.subrange(38, 42) == target {
        Some(frame.subrange(22, 28))
    } else {
        None
    }
}

pub fn parse_arp_reply(frame: &[u8], sender: [u8; 4], target: [u8; 4]) -> (r: Option<[u8; 6]>)
    ensures
        match r {
            Some(mac) => spec_parse_arp_reply(frame@, sender@, target@) == Some(mac@),
            None => spec_parse_arp_reply(frame@, sender@, target@) is None,
        },
{
    if frame.len() < 42 || read_be16(frame, 12) != 0x0806 || read_be16(frame, 20) != 2 {
        return None;
    }
    let same_sender = frame[28] == sender[0] && frame[29] == sender[1] && frame[30] == sender[2] && frame[31]
        == sender[3];
    let same_target = frame[38] == target[0] && frame[39] == target[1] && frame[40] == target[2] && frame[41]
        == target[3];
    assert(same_sender == (frame@.subrange(28, 32) == sender@)) by {
        if same_sender {
            assert(frame@.subrange(28, 32) =~= sender@);
        }
        if frame@.subrange(28, 32) == sender@ {
            assert(frame@.subrange(28, 32)[0] == sender@[0]);
            assert(frame@.subrange(28, 32)[1] == sender@[1]);
            assert(frame@.subrange(28, 32)[2] == sender@[2]);
            assert(frame@.subrange(28, 32)[3] == sender@[3]);
        }
    }
    assert(same_target == (frame@.subrange(38, 42) == target@)) by {
        if same_target {
            assert(frame@.subrange(38, 42) =~= target@);
        }
        if frame@.subrange(38, 42) == target@ {
            assert(frame@.subrange(38, 42)[0] == target@[0]);
            assert(frame@.subrange(38, 42)[1] == target@[1]);
            assert(frame@.subrange(38, 42)[2] == target@[2]);
            assert(frame@.subrange(38, 42)[3] == target@[3]);
        }
    }
    if !same_sender || !same_target {
        return None;
    }
    let mac = [frame[22], frame[23], frame[24], frame[25], frame[26], frame[27]];
    assert(mac@ =~= frame@.subrange(22, 28));
    Some(mac)
}

/// Folding a positive sum gives a positive value.
proof fn lemma_fold_positive(s: nat)
    requires
        s > 0,
    ensures
        fold(s) > 0,
    decreases s,
{
    if s >= 0x10000 {
        let t = s % 0x10000 + s / 0x10000;
        assert(t > 0 && t < s) by (nonlinear_arith)
            requires
                t == s % 0x10000 + s / 0x10000,
                s >= 0x10000,
        ;
        lemma_fold_positive(t);
    }
}

/// Adding the complement of a folded sum to the sum folds to all ones.
pub proof fn lemma_checksum_completes(ws: nat, c: u16)
    requires
        ws + 0xffff < 0x1_0000_0000,
        c == !(fold(ws) as u16),
    ensures
        fold((ws + c) as nat) == 0xffff,
{
    lemma_fold_congruent(ws);
    let f = fold(ws);
    assert(f <= 0xffff);
    let fu = f as u16;
    assert(!fu == 0xffff - fu) by (bit_vector);
    assert(c == 0xffff - f);
    assert((ws + c) % 0xffff == 0) by (nonlinear_arith)
        requires
            c == 0xffff - f,
            f % 0xffff == ws % 0xffff,
            0 <= f,
    {
        assert(ws == 0xffff * (ws / 0xffff) + ws % 0xffff);
        assert(f == 0xffff * (f / 0xffff) + f % 0xffff);
        assert(ws + c == 0xffff * (ws / 0xffff - f / 0xffff + 1));
    }
    lemma_fold_congruent(ws + c as nat);
    lemma_fold_positive(ws + c as nat);
}

proof fn lemma_words_prefix(a: Seq<u8>, b: Seq<u8>, k: int)
    requires
        0 <= k,
        2 * k <= a.len(),
    ensures
        words(a + b, k) == words(a, k),
    decreases k,
{
    if k > 0 {
        lemma_words_prefix(a, b, k - 1);
        assert((a + b)[2 * (k - 1)] == a[2 * (k - 1)]);
        assert((a + b)[2 * (k - 1) + 1] == a[2 * (k - 1) + 1]);
    }
}

proof fn lemma_words_concat(a: Seq<u8>, b: Seq<u8>, k: int)
    requires
        a.len() % 2 == 0,
        0 <= k,
        2 * k <= b.len(),
    ensures
        words(a + b, a.len() / 2 + k) == words(a, (a.len() / 2) as int) + words(b, k),
    decreases k,
{
    if k == 0 {
        lemma_words_prefix(a, b, (a.len() / 2) as int);
    } else {
        lemma_words_concat(a, b, k - 1);
        let i = 2 * (a.len() / 2 + k - 1);
        assert(i == a.len() + 2 * (k - 1));
        assert((a + b)[i] == b[2 * (k - 1)]);
        assert((a + b)[i + 1] == b[2 * (k - 1) + 1]);
    }
}

/// The word sum of `a` followed by `b`, for `a` of even length.
pub proof fn lemma_word_sum_concat(a: Seq<u8>, b: Seq<u8>)
    requires
        a.len() % 2 == 0,
    ensures
        word_sum(a + b) == word_sum(a) + word_sum(b),
{
    lemma_words_concat(a, b, (b.len() / 2) as int);
    assert((a + b).len() / 2 == a.len() / 2 + b.len() / 2);
    if b.len() % 2 == 1 {
        assert((a + b)[(a + b).len() - 1] == b[b.len() - 1]);
    }
}

proof fn lemma_words_update(s: Seq<u8>, k: int, hi: u8, lo: u8, n: int)
    requires
        0 <= k,
        k % 2 == 0,
        k + 1 < s.len(),
        0 <= n,
        2 * n <= s.len(),
    ensures
        words(s.update(k, hi).update(k + 1, lo), n) == words(s, n) + (if k / 2 < n {
            256 * hi + lo - be16(s, k)
        } else {
            0
        }),
    decreases n,
{
    if n > 0 {
        lemma_words_update(s, k, hi, lo, n - 1);
    }
}

/// Writing the checksum of `b` into the zero word at `k` makes the word sum
/// fold to all ones, so the checksum of the result is zero.
pub proof fn lemma_checksum_inserted(b: Seq<u8>, k: int)
    requires
        0 <= k,
        k % 2 == 0,
        k + 1 < b.len(),
        b[k] == 0,
        b[k + 1] == 0,
        b.len() <= 2000,
    ensures
        ({
            let c = spec_checksum(b);
            let b2 = b.update(k, (c / 256) as u8).update(k + 1, (c % 256) as u8);
            &&& word_sum(b2) == word_sum(b) + c
            &&& 0 <= word_sum(b2) < 0x1_0000_0000
            &&& fold(word_sum(b2) as nat) == 0xffff
            &&& spec_checksum(b2) == 0
        }),
{
    let c = spec_checksum(b);
    let b2 = b.update(k, (c / 256) as u8).update(k + 1, (c % 256) as u8);
    lemma_words_bound(b, (b.len() / 2) as int);
    lemma_words_update(b, k, (c / 256) as u8, (c % 256) as u8, (b.len() / 2) as int);
    assert(k / 2 < b.len() / 2);
    assert(256 * ((c / 256) as u8) + ((c % 256) as u8) == c);
    if b.len() % 2 == 1 {
        assert(b2[b2.len() - 1] == b[b.len() - 1]);
    }
    let ws = word_sum(b);
    assert(0 <= ws <= 0xffff * 1000 + 0xffff);
    assert(ws % 0x1_0000_0000 == ws);
    lemma_checksum_completes(ws as nat, c);
    let w2 = word_sum(b2);
    assert(w2 % 0x1_0000_0000 == w2);
    assert(!(0xffffu16) == 0u16) by (bit_vector);
}

} // verus!
