//! The passive TCP handshake: SYNs offered to the user, the SYN-ACK and its
//! retries, the final acknowledgment with at most one early segment, and
//! the hand-over of an established peer to a stream slot.
use vstd::prelude::*;
use crate::network::{
    SegmentModel, address_from_bytes, address_value, has_flag, sat_add, wrap_add, EarlyStreamData, PassiveTcpFailure, PassiveTcpProgress,
    PassiveTcpSyn, PASSIVE_TCP_HANDSHAKE_SLOTS, PASSIVE_TCP_RECEIVE_CAPACITY, PASSIVE_TCP_RETRY_TICKS,
    PASSIVE_TCP_STREAM_BUFFER_CAPACITY,
};
use crate::network_stack::{
    no_payload,
    find_tuple, opt_index, spec_pump, spec_send_tcp, stack_wf, LinkModel, NetworkStack, PassiveSegment,
    PassiveSegmentModel, StackModel, RETRIES,
};
use crate::socket::TcpServerPeer;
use crate::wire::{be32_bytes, spec_be32_bytes};

verus! {

/// One passive connection between the SYN-ACK and its hand-over to a
/// stream slot.
#[derive(Clone, Copy)]
pub struct HandshakeOperation {
    pub target: [u8; 4],
    pub remote_port: u16,
    pub local_port: u16,
    pub remote_sequence: u32,
    pub local_sequence: u32,
    pub source_mac: [u8; 6],
    pub established: bool,
    pub failed: bool,
    pub early: EarlyStreamData,
    pub attempts: usize,
    pub deadline: u64,
}

pub ghost struct HandshakeModel {
    pub target: Seq<u8>,
    pub remote_port: u16,
    pub local_port: u16,
    pub remote_sequence: u32,
    pub local_sequence: u32,
    pub source_mac: Seq<u8>,
    pub established: bool,
    pub failed: bool,
    pub early_bytes: Seq<u8>,
    pub early_len: usize,
    pub early_fin: bool,
    pub peer_window: u16,
    pub attempts: usize,
    pub deadline: u64,
}

impl HandshakeOperation {
    pub open spec fn view(&self) -> HandshakeModel {
        HandshakeModel {
            target: self.target@,
            remote_port: self.remote_port,
            local_port: self.local_port,
            remote_sequence: self.remote_sequence,
            local_sequence: self.local_sequence,
            source_mac: self.source_mac@,
            established: self.established,
            failed: self.failed,
            early_bytes: self.early.bytes@,
            early_len: self.early.len,
            early_fin: self.early.fin,
            peer_window: self.early.peer_window,
            attempts: self.attempts,
            deadline: self.deadline,
        }
    }
}

/// A SYN offered to the user, as plain values.
pub ghost struct SynModel {
    pub target: u32,
    pub remote_port: u16,
    pub local_port: u16,
    pub remote_sequence: u32,
    pub source_mac: Seq<u8>,
}

pub open spec fn syn_view(s: PassiveTcpSyn) -> SynModel {
    SynModel {
        target: s.target,
        remote_port: s.remote_port,
        local_port: s.local_port,
        remote_sequence: s.remote_sequence,
        source_mac: s.source_mac@,
    }
}

pub open spec fn handshake_slot_model(slot: Option<HandshakeOperation>) -> Option<HandshakeModel> {
    match slot {
        Some(h) => Some(h@),
        None => None,
    }
}

pub open spec fn syn_slot_model(slot: Option<PassiveTcpSyn>) -> Option<SynModel> {
    match slot {
        Some(s) => Some(syn_view(s)),
        None => None,
    }
}

/// A handshake's early bytes fit one stream buffer and its addresses have
/// their lengths.
pub open spec fn handshake_wf(h: HandshakeModel) -> bool {
    &&& h.early_len <= PASSIVE_TCP_STREAM_BUFFER_CAPACITY
    &&& h.early_bytes.len() == PASSIVE_TCP_STREAM_BUFFER_CAPACITY
    &&& h.target.len() == 4
    &&& h.source_mac.len() == 6
}

/// The first handshake slot, from `from` on, of the tuple.
pub open spec fn find_handshake(
    hs: Seq<Option<HandshakeModel>>,
    target: Seq<u8>,
    remote_port: u16,
    local_port: u16,
    from: nat,
) -> Option<int>
    decreases hs.len() - from,
{
    if from >= hs.len() {
        None
    } else if hs[from as int] matches Some(h) && h.target == target && h.remote_port == remote_port
        && h.local_port == local_port {
        Some(from as int)
    } else {
        find_handshake(hs, target, remote_port, local_port, from + 1)
    }
}

/// The first empty handshake slot from `from` on.
pub open spec fn find_free_handshake(hs: Seq<Option<HandshakeModel>>, from: nat) -> Option<int>
    decreases hs.len() - from,
{
    if from >= hs.len() {
        None
    } else if hs[from as int] is None {
        Some(from as int)
    } else {
        find_free_handshake(hs, from + 1)
    }
}

/// The first empty cell for an offered SYN, from `from` on.
pub open spec fn find_free_syn(syns: Seq<Option<SynModel>>, from: nat) -> Option<int>
    decreases syns.len() - from,
{
    if from >= syns.len() {
        None
    } else if syns[from as int] is None {
        Some(from as int)
    } else {
        find_free_syn(syns, from + 1)
    }
}

/// The first offered SYN from `from` on.
pub open spec fn find_syn(syns: Seq<Option<SynModel>>, from: nat) -> Option<int>
    decreases syns.len() - from,
{
    if from >= syns.len() {
        None
    } else if syns[from as int] is Some {
        Some(from as int)
    } else {
        find_syn(syns, from + 1)
    }
}

pub proof fn lemma_find_handshake(hs: Seq<Option<HandshakeModel>>, target: Seq<u8>, remote_port: u16, local_port: u16, from: nat)
    ensures
        find_handshake(hs, target, remote_port, local_port, from) matches Some(i) ==> from <= i < hs.len()
            && hs[i] is Some,
    decreases hs.len() - from,
{
    if from < hs.len() {
        lemma_find_handshake(hs, target, remote_port, local_port, from + 1);
    }
}

proof fn lemma_find_free_handshake(hs: Seq<Option<HandshakeModel>>, from: nat)
    ensures
        find_free_handshake(hs, from) matches Some(i) ==> from <= i < hs.len() && hs[i] is None,
    decreases hs.len() - from,
{
    if from < hs.len() {
        lemma_find_free_handshake(hs, from + 1);
    }
}

proof fn lemma_find_free_syn(syns: Seq<Option<SynModel>>, from: nat)
    ensures
        find_free_syn(syns, from) matches Some(i) ==> from <= i < syns.len() && syns[i] is None,
    decreases syns.len() - from,
{
    if from < syns.len() {
        lemma_find_free_syn(syns, from + 1);
    }
}

proof fn lemma_find_syn(syns: Seq<Option<SynModel>>, from: nat)
    ensures
        find_syn(syns, from) matches Some(i) ==> from <= i < syns.len() && syns[i] is Some,
    decreases syns.len() - from,
{
    if from < syns.len() {
        lemma_find_syn(syns, from + 1);
    }
}

/// The SYN-ACK of a handshake.
pub open spec fn syn_ack(l: LinkModel, h: HandshakeModel) -> (LinkModel, bool) {
    spec_send_tcp(
        l,
        h.source_mac,
        h.target,
        h.local_port,
        h.remote_port,
        h.local_sequence,
        wrap_add(h.remote_sequence, 1),
        0x12,
        Seq::empty(),
        PASSIVE_TCP_RECEIVE_CAPACITY as u16,
    )
}

pub open spec fn with_handshake(m: StackModel, i: int, h: HandshakeModel) -> StackModel {
    StackModel { handshakes: m.handshakes.update(i, Some(h)), ..m }
}

/// The sequence number after the peer's SYN and the early bytes taken.
pub open spec fn after_early(h: HandshakeModel) -> u32 {
    wrap_add(h.remote_sequence, 1 + h.early_len as int)
}

/// A reset or a repeated SYN on the handshake in slot `i`: a reset counts
/// only at the exact next sequence; a SYN at the peer's initial sequence is
/// answered with the SYN-ACK again.
pub open spec fn handshake_control(m: StackModel, i: int, p: PassiveSegmentModel, tick: u64) -> StackModel {
    let h = m.handshakes[i]->Some_0;
    let seg = p.segment;
    if has_flag(seg.flags, 0x04) {
        let expected = wrap_add(after_early(h), if h.early_fin { 1int } else { 0int });
        with_handshake(m, i, HandshakeModel { failed: h.failed || seg.sequence == expected, ..h })
    } else {
        let (l, sent) = syn_ack(m.link, h);
        with_handshake(
            StackModel { link: l, ..m },
            i,
            if sent {
                HandshakeModel { deadline: sat_add(tick, PASSIVE_TCP_RETRY_TICKS as int), ..h }
            } else {
                HandshakeModel { failed: true, ..h }
            },
        )
    }
}

/// The final acknowledgment on the handshake in slot `i`: it establishes
/// the connection and may carry one early data segment and a FIN, which
/// are taken once and acknowledged at once; an acknowledgment of anything
/// else, or at another sequence, is ignored.
pub open spec fn handshake_ack(m: StackModel, i: int, p: PassiveSegmentModel, tick: u64) -> StackModel {
    let h = m.handshakes[i]->Some_0;
    let seg = p.segment;
    let len = seg.payload.len();
    if !(seg.flags & 0x12 == 0x10 && seg.acknowledgment == wrap_add(h.local_sequence, 1)) || seg.sequence
        != after_early(h) {
        m
    } else {
        let h1 = HandshakeModel { peer_window: seg.window, ..h };
        if !h1.established && len == 0 && !has_flag(seg.flags, 0x01) {
            with_handshake(m, i, HandshakeModel { established: true, ..h1 })
        } else {
            admit_early(m, i, h1, seg, tick)
        }
    }
}

/// Takes at most one early data segment and a FIN into handshake `h1`, at
/// slot `i`, and acknowledges what was taken.
pub open spec fn admit_early(m: StackModel, i: int, h1: HandshakeModel, seg: SegmentModel, tick: u64) -> StackModel {
    let len = seg.payload.len();
    let data = len != 0 && h1.early_len == 0 && !h1.early_fin && len <= PASSIVE_TCP_STREAM_BUFFER_CAPACITY;
    let h2 = if data {
        HandshakeModel {
            early_bytes: seg.payload + h1.early_bytes.subrange(len as int, PASSIVE_TCP_STREAM_BUFFER_CAPACITY as int),
            early_len: len as usize,
            ..h1
        }
    } else {
        h1
    };
    let fin = has_flag(seg.flags, 0x01) && !h2.early_fin && (len == 0 || data);
    let h3 = if fin { HandshakeModel { early_fin: true, ..h2 } } else { h2 };
    if data || fin {
        let h4 = HandshakeModel { established: true, deadline: sat_add(tick, PASSIVE_TCP_RETRY_TICKS as int), ..h3 };
        let acknowledgment = wrap_add(after_early(h4), if h4.early_fin { 1int } else { 0int });
        let (l, sent) = spec_send_tcp(
            m.link,
            h4.source_mac,
            h4.target,
            h4.local_port,
            h4.remote_port,
            wrap_add(h4.local_sequence, 1),
            acknowledgment,
            0x10,
            Seq::empty(),
            PASSIVE_TCP_RECEIVE_CAPACITY as u16,
        );
        with_handshake(StackModel { link: l, ..m }, i, if sent { h4 } else { HandshakeModel { failed: true, ..h4 } })
    } else {
        with_handshake(m, i, h3)
    }
}

/// A segment on the handshake in slot `i`: a reset, or a SYN without
/// payload at the peer's initial sequence, is a control segment; anything
/// else is taken as the final acknowledgment.
#[verifier::opaque]
pub open spec fn spec_handle_handshake(m: StackModel, i: int, p: PassiveSegmentModel, tick: u64) -> StackModel {
    let h = m.handshakes[i]->Some_0;
    let seg = p.segment;
    if has_flag(seg.flags, 0x04) || (seg.flags % 64 == 0x02 && seg.sequence == h.remote_sequence
        && seg.payload.len() == 0) {
        handshake_control(m, i, p, tick)
    } else {
        handshake_ack(m, i, p, tick)
    }
}

/// A SYN from a tuple with no stream or handshake: offered to the user once,
/// while a cell is free.
#[verifier::opaque]
pub open spec fn spec_offer_syn(m: StackModel, p: PassiveSegmentModel) -> StackModel {
    let seg = p.segment;
    if seg.flags % 64 == 0x02 && seg.payload.len() == 0 && p.remote_port != 0 && p.local_port != 0 {
        let syn = SynModel {
            target: address_value(p.source) as u32,
            remote_port: p.remote_port,
            local_port: p.local_port,
            remote_sequence: seg.sequence,
            source_mac: p.source_mac,
        };
        if m.pending_syns.contains(Some(syn)) {
            m
        } else {
            match find_free_syn(m.pending_syns, 0) {
                Some(j) => StackModel { pending_syns: m.pending_syns.update(j, Some(syn)), ..m },
                None => m,
            }
        }
    } else {
        m
    }
}

/// The local initial sequence number for a SYN.
pub open spec fn initial_sequence(syn: PassiveTcpSyn) -> u32 {
    0x90a0_b0c0u32 ^ syn.target ^ (((syn.local_port as u32) << 16u32) | (syn.remote_port as u32)) ^ ((
    syn.remote_sequence << 13u32) | (syn.remote_sequence >> 19u32))
}

fn syn_eq(a: &PassiveTcpSyn, b: &PassiveTcpSyn) -> (r: bool)
    ensures
        r == (syn_view(*a) == syn_view(*b)),
{
    let same = a.target == b.target && a.remote_port == b.remote_port && a.local_port == b.local_port
        && a.remote_sequence == b.remote_sequence && a.source_mac[0] == b.source_mac[0] && a.source_mac[1]
        == b.source_mac[1] && a.source_mac[2] == b.source_mac[2] && a.source_mac[3] == b.source_mac[3]
        && a.source_mac[4] == b.source_mac[4] && a.source_mac[5] == b.source_mac[5];
    if same {
        assert(a.source_mac@ =~= b.source_mac@);
    } else {
        assert(syn_view(*a) == syn_view(*b) ==> a.source_mac@[0] == b.source_mac@[0]);
        assert(syn_view(*a) == syn_view(*b) ==> a.source_mac@[1] == b.source_mac@[1] && a.source_mac@[2]
            == b.source_mac@[2] && a.source_mac@[3] == b.source_mac@[3] && a.source_mac@[4] == b.source_mac@[4]
            && a.source_mac@[5] == b.source_mac@[5]);
    }
    same
}

impl NetworkStack {
    /// The handshake slot of a segment's tuple.
    pub fn handshake_slot_for_tuple(&self, target: [u8; 4], remote_port: u16, local_port: u16) -> (r: Option<usize>)
        requires
            stack_wf(self@),
        ensures
            opt_index(r) == find_handshake(self@.handshakes, target@, remote_port, local_port, 0),
    {
        let mut i: usize = 0;
        while i < self.passive_tcp.len()
            invariant
                i <= self.passive_tcp@.len(),
                self@.handshakes.len() == self.passive_tcp@.len(),
                find_handshake(self@.handshakes, target@, remote_port, local_port, 0) == find_handshake(
                    self@.handshakes,
                    target@,
                    remote_port,
                    local_port,
                    i as nat,
                ),
            decreases self.passive_tcp@.len() - i,
        {
            if let Some(h) = self.passive_tcp[i] {
                assert(self@.handshakes[i as int] == Some(h@));
                let same = h.target[0] == target[0] && h.target[1] == target[1] && h.target[2] == target[2]
                    && h.target[3] == target[3];
                assert(same == (h.target@ == target@)) by {
                    if same {
                        assert(h.target@ =~= target@);
                    }
                }
                if same && h.remote_port == remote_port && h.local_port == local_port {
                    return Some(i);
                }
            }
            i += 1;
        }
        None
    }

    /// Puts a handshake into slot `i`.
    fn put_handshake(&mut self, i: usize, h: HandshakeOperation)
        requires
            i < old(self)@.handshakes.len(),
        ensures
            final(self)@ == with_handshake(old(self)@, i as int, h@),
    {
        assert(self@.handshakes.len() == self.passive_tcp@.len());
        self.passive_tcp.set(i, Some(h));
        assert(self@.handshakes =~= old(self)@.handshakes.update(i as int, Some(h@)));
    }

    /// Sends a handshake's SYN-ACK; see `syn_ack`.
    fn send_syn_ack(&mut self, h: &HandshakeOperation) -> (r: bool)
        ensures
            final(self)@ == (StackModel { link: final(self)@.link, ..old(self)@ }),
            (final(self)@.link, r) == syn_ack(old(self)@.link, h@),
    {
        self.send_tcp(
            h.source_mac,
            h.target,
            h.local_port,
            h.remote_port,
            h.local_sequence,
            h.remote_sequence.wrapping_add(1),
            0x12,
            no_payload(),
        ).is_some()
    }

    /// A reset or repeated SYN on a handshake; see `handshake_control`.
    #[verifier::rlimit(60)]
    #[verifier::spinoff_prover]
    fn handshake_control_segment(&mut self, i: usize, p: &PassiveSegment, tick: u64)
        requires
            stack_wf(old(self)@),
            i < PASSIVE_TCP_HANDSHAKE_SLOTS,
            old(self)@.handshakes[i as int] is Some,
        ensures
            stack_wf(final(self)@),
            final(self)@ == handshake_control(old(self)@, i as int, p@, tick),
    {
        assert(self@.handshakes[i as int] == handshake_slot_model(self.passive_tcp@[i as int]));
        let mut h = self.passive_tcp[i].unwrap();
        if p.segment.flags & 0x04 != 0 {
            let early_fin: u32 = if h.early.fin { 1 } else { 0 };
            let after = h.remote_sequence.wrapping_add(1).wrapping_add(h.early.len as u32);
            assert(after == after_early(h@));
            let expected = after.wrapping_add(early_fin);
            assert(expected == wrap_add(after_early(h@), early_fin as int));
            h.failed = h.failed || p.segment.sequence == expected;
        } else if self.send_syn_ack(&h) {
            h.deadline = tick.saturating_add(PASSIVE_TCP_RETRY_TICKS);
        } else {
            h.failed = true;
        }
        self.put_handshake(i, h);
    }

    /// The final acknowledgment on a handshake; see `handshake_ack`.
    #[verifier::rlimit(60)]
    #[verifier::spinoff_prover]
    fn handshake_ack_segment(&mut self, i: usize, p: &PassiveSegment, tick: u64)
        requires
            stack_wf(old(self)@),
            i < PASSIVE_TCP_HANDSHAKE_SLOTS,
            old(self)@.handshakes[i as int] is Some,
        ensures
            stack_wf(final(self)@),
            final(self)@ == handshake_ack(old(self)@, i as int, p@, tick),
    {
        assert(self@.handshakes[i as int] == handshake_slot_model(self.passive_tcp@[i as int]));
        let mut h = self.passive_tcp[i].unwrap();
        assert(handshake_wf(h@));
        let flags = p.segment.flags;
        let len = p.segment.payload.len();
        let after = h.remote_sequence.wrapping_add(1).wrapping_add(h.early.len as u32);
        assert(after == after_early(h@));
        if !(flags & 0x12 == 0x10 && p.segment.acknowledgment == h.local_sequence.wrapping_add(1))
            || p.segment.sequence != after {
            return;
        }
        h.early.peer_window = p.segment.window;
        if !h.established && len == 0 && flags & 0x01 == 0 {
            h.established = true;
            self.put_handshake(i, h);
            return;
        }
        self.admit_early_segment(i, h, p, tick);
    }

    /// Takes early bytes and a FIN into a handshake; see `admit_early`.
    #[verifier::rlimit(60)]
    #[verifier::spinoff_prover]
    fn admit_early_segment(&mut self, i: usize, h0: HandshakeOperation, p: &PassiveSegment, tick: u64)
        requires
            stack_wf(old(self)@),
            i < PASSIVE_TCP_HANDSHAKE_SLOTS,
            handshake_wf(h0@),
        ensures
            stack_wf(final(self)@),
            final(self)@ == admit_early(old(self)@, i as int, h0@, p.segment@, tick),
    {
        let mut h = h0;
        let flags = p.segment.flags;
        let len = p.segment.payload.len();
        let data = len != 0 && h.early.len == 0 && !h.early.fin && len <= PASSIVE_TCP_STREAM_BUFFER_CAPACITY;
        if data {
            take_early(&mut h.early, p.segment.payload.as_slice());
        }
        let fin = flags & 0x01 != 0 && !h.early.fin && (len == 0 || data);
        if fin {
            h.early.fin = true;
        }
        if data || fin {
            h.established = true;
            h.deadline = tick.saturating_add(PASSIVE_TCP_RETRY_TICKS);
            let extra: u32 = if h.early.fin { 1 } else { 0 };
            let after4 = h.remote_sequence.wrapping_add(1).wrapping_add(h.early.len as u32);
            assert(after4 == after_early(h@));
            let acknowledgment = after4.wrapping_add(extra);
            assert(acknowledgment == wrap_add(after_early(h@), extra as int));
            let sent = self.send_tcp(
                h.source_mac,
                h.target,
                h.local_port,
                h.remote_port,
                h.local_sequence.wrapping_add(1),
                acknowledgment,
                0x10,
                no_payload(),
            ).is_some();
            if !sent {
                h.failed = true;
            }
        }
        self.put_handshake(i, h);
    }

    /// A segment on the handshake in slot `i`; see `spec_handle_handshake`.
    pub fn handle_handshake_segment(&mut self, i: usize, p: &PassiveSegment, tick: u64)
        requires
            stack_wf(old(self)@),
            i < PASSIVE_TCP_HANDSHAKE_SLOTS,
            old(self)@.handshakes[i as int] is Some,
        ensures
            stack_wf(final(self)@),
            final(self)@ == spec_handle_handshake(old(self)@, i as int, p@, tick),
    {
        reveal(spec_handle_handshake);
        assert(self@.handshakes[i as int] == handshake_slot_model(self.passive_tcp@[i as int]));
        let flags = p.segment.flags;
        let remote_sequence = match self.passive_tcp[i] {
            Some(h) => h.remote_sequence,
            None => 0,
        };
        assert((flags & 0x3f) == flags % 64) by (bit_vector);
        if flags & 0x04 != 0 || (flags & 0x3f == 0x02 && p.segment.sequence == remote_sequence
            && p.segment.payload.len() == 0) {
            self.handshake_control_segment(i, p, tick);
        } else {
            self.handshake_ack_segment(i, p, tick);
        }
    }

    /// The first empty cell for an offered SYN.
    fn free_syn_cell(&self) -> (r: Option<usize>)
        ensures
            opt_index(r) == find_free_syn(self@.pending_syns, 0),
    {
        let mut i: usize = 0;
        while i < self.pending_syns.len()
            invariant
                i <= self.pending_syns@.len(),
                self@.pending_syns.len() == self.pending_syns@.len(),
                find_free_syn(self@.pending_syns, 0) == find_free_syn(self@.pending_syns, i as nat),
            decreases self.pending_syns@.len() - i,
        {
            assert(self@.pending_syns[i as int] == syn_slot_model(self.pending_syns@[i as int]));
            if self.pending_syns[i].is_none() {
                return Some(i);
            }
            i += 1;
        }
        None
    }

    /// Offers a SYN from an unknown tuple to the user; see `spec_offer_syn`.
    pub(crate) fn offer_syn(&mut self, p: &PassiveSegment)
        requires
            stack_wf(old(self)@),
        ensures
            stack_wf(final(self)@),
            final(self)@ == spec_offer_syn(old(self)@, p@),
    {
        reveal(spec_offer_syn);
        let flags = p.segment.flags;
        assert((flags & 0x3f) == flags % 64) by (bit_vector);
        if !(flags & 0x3f == 0x02 && p.segment.payload.len() == 0 && p.remote_port != 0 && p.local_port != 0) {
            return;
        }
        let syn = PassiveTcpSyn {
            target: address_from_bytes(p.source),
            remote_port: p.remote_port,
            local_port: p.local_port,
            remote_sequence: p.segment.sequence,
            source_mac: p.source_mac,
        };
        let ghost model = syn_view(syn);
        let mut duplicate = false;
        let mut j: usize = 0;
        while j < self.pending_syns.len()
            invariant
                j <= self.pending_syns@.len(),
                self@.pending_syns.len() == self.pending_syns@.len(),
                model == syn_view(syn),
                duplicate == self@.pending_syns.subrange(0, j as int).contains(Some(model)),
            decreases self.pending_syns@.len() - j,
        {
            assert(self@.pending_syns[j as int] == syn_slot_model(self.pending_syns@[j as int]));
            assert(self@.pending_syns.subrange(0, j as int + 1) =~= self@.pending_syns.subrange(0, j as int).push(
                self@.pending_syns[j as int],
            ));
            let ghost prefix = self@.pending_syns.subrange(0, j as int);
            let ghost next = self@.pending_syns.subrange(0, j as int + 1);
            assert(next[j as int] == self@.pending_syns[j as int]);
            if let Some(q) = &self.pending_syns[j] {
                assert(self.pending_syns@[j as int] == Some(*q));
                if syn_eq(q, &syn) {
                    duplicate = true;
                    assert(next[j as int] == Some(model));
                }
            }
            proof {
                if !duplicate {
                    assert(next[j as int] != Some(model));
                    if next.contains(Some(model)) {
                        let k = choose|k: int| 0 <= k < next.len() && next[k] == Some(model);
                        assert(prefix[k] == Some(model));
                    }
                } else if prefix.contains(Some(model)) {
                    let k = choose|k: int| 0 <= k < prefix.len() && prefix[k] == Some(model);
                    assert(next[k] == Some(model));
                }
            }
            j += 1;
        }
        assert(self@.pending_syns.subrange(0, self@.pending_syns.len() as int) =~= self@.pending_syns);
        if duplicate {
            return;
        }
        proof {
            lemma_find_free_syn(self@.pending_syns, 0);
        }
        if let Some(slot) = self.free_syn_cell() {
            let ghost before = self@;
            self.pending_syns.set(slot, Some(syn));
            assert(self@.pending_syns =~= before.pending_syns.update(slot as int, Some(model)));
        }
    }
}

/// Copies `payload` into the front of the early bytes.
fn take_early(early: &mut EarlyStreamData, payload: &[u8])
    requires
        payload@.len() <= PASSIVE_TCP_STREAM_BUFFER_CAPACITY,
    ensures
        final(early).bytes@ == payload@ + old(early).bytes@.subrange(
            payload@.len() as int,
            PASSIVE_TCP_STREAM_BUFFER_CAPACITY as int,
        ),
        final(early).len == payload@.len(),
        final(early).fin == old(early).fin,
        final(early).peer_window == old(early).peer_window,
{
    let len = payload.len();
    let ghost before_bytes = early.bytes@;
    let mut k: usize = 0;
    while k < len
        invariant
            len == payload@.len(),
            len <= PASSIVE_TCP_STREAM_BUFFER_CAPACITY,
            early.bytes@.len() == PASSIVE_TCP_STREAM_BUFFER_CAPACITY,
            before_bytes.len() == PASSIVE_TCP_STREAM_BUFFER_CAPACITY,
            before_bytes == old(early).bytes@,
            early.fin == old(early).fin,
            early.peer_window == old(early).peer_window,
            k <= len,
            forall|j: int| 0 <= j < k ==> early.bytes@[j] == payload@[j],
            forall|j: int| len <= j < PASSIVE_TCP_STREAM_BUFFER_CAPACITY ==> early.bytes@[j] == before_bytes[j],
        decreases len - k,
    {
        early.bytes[k] = payload[k];
        k += 1;
    }
    assert(early.bytes@ =~= payload@ + before_bytes.subrange(len as int, PASSIVE_TCP_STREAM_BUFFER_CAPACITY as int));
    early.len = len;
}

/// What the handshakes report to the scheduler.
pub ghost enum HandshakeEvent {
    Syn(SynModel),
    Established(HandshakeModel),
    Failed(HandshakeModel),
}

/// The established peer a handshake hands over.
pub open spec fn peer_matches(peer: TcpServerPeer, h: HandshakeModel) -> bool {
    &&& peer.target == address_value(h.target)
    &&& peer.remote_port == h.remote_port
    &&& peer.local_port == h.local_port
    &&& peer.remote_sequence == wrap_add(h.remote_sequence, 1)
    &&& peer.local_sequence == wrap_add(h.local_sequence, 1)
    &&& peer.source_mac@ == h.source_mac
}

/// The early bytes and FIN a handshake hands over.
pub open spec fn early_matches(e: EarlyStreamData, h: HandshakeModel) -> bool {
    &&& e.bytes@ == h.early_bytes
    &&& e.len == h.early_len
    &&& e.fin == h.early_fin
    &&& e.peer_window == h.peer_window
}

/// The tuple of a failed handshake.
pub open spec fn failure_matches(f: PassiveTcpFailure, h: HandshakeModel) -> bool {
    f.target == address_value(h.target) && f.remote_port == h.remote_port && f.local_port == h.local_port
}

/// Whether a reported progress is the event a scan found, or, without
/// one, whether any handshake was seen.
pub open spec fn passive_progress_is(r: PassiveTcpProgress, event: Option<HandshakeEvent>, seen: bool) -> bool {
    match r {
        PassiveTcpProgress::Idle => event is None && !seen,
        PassiveTcpProgress::Pending => event is None && seen,
        PassiveTcpProgress::Syn(syn) => event == Some(HandshakeEvent::Syn(syn_view(syn))),
        PassiveTcpProgress::Established(peer, early) => event matches Some(HandshakeEvent::Established(h))
            && peer_matches(peer, h) && early_matches(early, h),
        PassiveTcpProgress::Failed(f) => event matches Some(HandshakeEvent::Failed(h)) && failure_matches(f, h),
    }
}

pub open spec fn without_handshake(m: StackModel, i: int) -> StackModel {
    StackModel { handshakes: m.handshakes.update(i, None), ..m }
}

/// One tick of the handshake in slot `index`: a failed or established
/// handshake is reported and freed; an unanswered SYN-ACK is sent again
/// when due, and after `RETRIES` sends, or when the device refuses one, the
/// handshake fails.
#[verifier::opaque]
pub open spec fn handshake_slot_step(m: StackModel, tick: u64, index: int) -> (StackModel, Option<HandshakeEvent>) {
    let h = m.handshakes[index]->Some_0;
    if h.failed {
        (without_handshake(m, index), Some(HandshakeEvent::Failed(h)))
    } else if h.established {
        (without_handshake(m, index), Some(HandshakeEvent::Established(h)))
    } else if tick >= h.deadline {
        if h.attempts >= RETRIES {
            (without_handshake(m, index), Some(HandshakeEvent::Failed(h)))
        } else {
            let (l, sent) = syn_ack(m.link, h);
            if !sent {
                (without_handshake(StackModel { link: l, ..m }, index), Some(HandshakeEvent::Failed(h)))
            } else {
                (
                    with_handshake(
                        StackModel { link: l, ..m },
                        index,
                        HandshakeModel {
                            attempts: (h.attempts + 1) as usize,
                            deadline: sat_add(tick, PASSIVE_TCP_RETRY_TICKS as int),
                            ..h
                        },
                    ),
                    None,
                )
            }
        }
    } else {
        (m, None)
    }
}

/// The scan of the handshake slots from `index` on, then the first offered
/// SYN; the first report ends it. The flag says a handshake was seen.
pub open spec fn handshake_scan(m: StackModel, tick: u64, index: nat, seen: bool) -> (StackModel, Option<HandshakeEvent>, bool)
    decreases PASSIVE_TCP_HANDSHAKE_SLOTS - index,
{
    if index >= PASSIVE_TCP_HANDSHAKE_SLOTS {
        match find_syn(m.pending_syns, 0) {
            Some(j) => (
                StackModel { pending_syns: m.pending_syns.update(j, None), ..m },
                Some(HandshakeEvent::Syn(m.pending_syns[j]->Some_0)),
                seen,
            ),
            None => (m, None, seen),
        }
    } else if m.handshakes[index as int] is None {
        handshake_scan(m, tick, index + 1, seen)
    } else {
        let (m1, event) = handshake_slot_step(m, tick, index as int);
        match event {
            Some(e) => (m1, Some(e), true),
            None => handshake_scan(m1, tick, index + 1, true),
        }
    }
}

/// One tick of the passive handshakes: nothing while the stack is down;
/// otherwise the receive step, then the scan of the handshake slots, then
/// the first offered SYN.
pub open spec fn spec_poll_passive(m: StackModel, tick: u64) -> (StackModel, Option<HandshakeEvent>, bool) {
    if !m.available {
        (m, None, false)
    } else {
        handshake_scan(spec_pump(m, tick), tick, 0, false)
    }
}

/// The handshake a SYN starts: a SYN-ACK with the derived initial sequence
/// is outstanding, nothing was received early, and the first resend is due
/// after the retry interval.
pub open spec fn new_handshake(syn: PassiveTcpSyn, tick: u64) -> HandshakeModel {
    HandshakeModel {
        target: spec_be32_bytes(syn.target),
        remote_port: syn.remote_port,
        local_port: syn.local_port,
        remote_sequence: syn.remote_sequence,
        local_sequence: initial_sequence(syn),
        source_mac: syn.source_mac@,
        established: false,
        failed: false,
        early_bytes: Seq::new(PASSIVE_TCP_STREAM_BUFFER_CAPACITY as nat, |j: int| 0u8),
        early_len: 0,
        early_fin: false,
        peer_window: u16::MAX,
        attempts: 1,
        deadline: sat_add(tick, PASSIVE_TCP_RETRY_TICKS as int),
    }
}

/// Accepts an offered SYN: refused while the stack is down or its own UDP
/// or TCP request is under way, for a zero address or port, for a tuple that already has a stream or a handshake,
/// with every handshake slot taken, and when the device refuses the
/// SYN-ACK.
pub open spec fn spec_start_passive(m: StackModel, syn: PassiveTcpSyn, tick: u64) -> (StackModel, bool) {
    let target = spec_be32_bytes(syn.target);
    if !m.available || m.async_udp is Some || m.async_tcp is Some || syn.target == 0 || syn.remote_port == 0
        || syn.local_port == 0 {
        (m, false)
    } else if find_tuple(m.streams, target, syn.remote_port, syn.local_port, 0) is Some || find_handshake(
        m.handshakes,
        target,
        syn.remote_port,
        syn.local_port,
        0,
    ) is Some {
        (m, false)
    } else {
        match find_free_handshake(m.handshakes, 0) {
            None => (m, false),
            Some(i) => {
                let h = new_handshake(syn, tick);
                let (l, sent) = syn_ack(m.link, h);
                if sent {
                    (with_handshake(StackModel { link: l, ..m }, i, h), true)
                } else {
                    (StackModel { link: l, ..m }, false)
                }
            },
        }
    }
}

/// Refuses an offered SYN with a reset.
pub open spec fn spec_reject_syn(m: StackModel, syn: PassiveTcpSyn) -> StackModel {
    StackModel {
        link: spec_send_tcp(
            m.link,
            syn.source_mac@,
            spec_be32_bytes(syn.target),
            syn.local_port,
            syn.remote_port,
            0,
            wrap_add(syn.remote_sequence, 1),
            0x14,
            Seq::empty(),
            PASSIVE_TCP_RECEIVE_CAPACITY as u16,
        ).0,
        ..m
    }
}

/// Refuses an established peer with a reset.
pub open spec fn spec_reject_peer(m: StackModel, peer: TcpServerPeer) -> StackModel {
    StackModel {
        link: spec_send_tcp(
            m.link,
            peer.source_mac@,
            spec_be32_bytes(peer.target),
            peer.local_port,
            peer.remote_port,
            peer.local_sequence,
            peer.remote_sequence,
            0x14,
            Seq::empty(),
            PASSIVE_TCP_RECEIVE_CAPACITY as u16,
        ).0,
        ..m
    }
}

/// Resets the handshake of a failed tuple and frees its slot.
pub open spec fn spec_cancel_passive(m: StackModel, f: PassiveTcpFailure) -> StackModel {
    match find_handshake(m.handshakes, spec_be32_bytes(f.target), f.remote_port, f.local_port, 0) {
        None => m,
        Some(i) => {
            let h = m.handshakes[i]->Some_0;
            without_handshake(
                StackModel {
                    link: spec_send_tcp(
                        m.link,
                        h.source_mac,
                        h.target,
                        h.local_port,
                        h.remote_port,
                        wrap_add(h.local_sequence, 1),
                        wrap_add(h.remote_sequence, 1),
                        0x14,
                        Seq::empty(),
                        PASSIVE_TCP_RECEIVE_CAPACITY as u16,
                    ).0,
                    ..m
                },
                i,
            )
        },
    }
}

impl NetworkStack {
    fn free_handshake_slot(&self) -> (r: Option<usize>)
        ensures
            opt_index(r) == find_free_handshake(self@.handshakes, 0),
    {
        let mut i: usize = 0;
        while i < self.passive_tcp.len()
            invariant
                i <= self.passive_tcp@.len(),
                self@.handshakes.len() == self.passive_tcp@.len(),
                find_free_handshake(self@.handshakes, 0) == find_free_handshake(self@.handshakes, i as nat),
            decreases self.passive_tcp@.len() - i,
        {
            assert(self@.handshakes[i as int] == handshake_slot_model(self.passive_tcp@[i as int]));
            if self.passive_tcp[i].is_none() {
                return Some(i);
            }
            i += 1;
        }
        None
    }

    fn clear_handshake(&mut self, i: usize)
        requires
            i < old(self)@.handshakes.len(),
        ensures
            final(self)@ == without_handshake(old(self)@, i as int),
    {
        assert(self@.handshakes.len() == self.passive_tcp@.len());
        self.passive_tcp.set(i, None);
        assert(self@.handshakes =~= old(self)@.handshakes.update(i as int, None));
    }

    /// The first offered SYN, taken out of its cell.
    fn take_offered_syn(&mut self) -> (r: Option<PassiveTcpSyn>)
        requires
            stack_wf(old(self)@),
        ensures
            stack_wf(final(self)@),
            match find_syn(old(self)@.pending_syns, 0) {
                Some(j) => r is Some && old(self)@.pending_syns[j] == Some(syn_view(r->Some_0)) && final(self)@ == (StackModel {
                    pending_syns: old(self)@.pending_syns.update(j, None),
                    ..old(self)@
                }),
                None => r is None && final(self)@ == old(self)@,
            },
    {
        let mut i: usize = 0;
        while i < self.pending_syns.len()
            invariant
                i <= self.pending_syns@.len(),
                self@.pending_syns.len() == self.pending_syns@.len(),
                stack_wf(self@),
                self@ == old(self)@,
                self.pending_syns@ == old(self).pending_syns@,
                find_syn(self@.pending_syns, 0) == find_syn(self@.pending_syns, i as nat),
            decreases self.pending_syns@.len() - i,
        {
            assert(self@.pending_syns[i as int] == syn_slot_model(self.pending_syns@[i as int]));
            if let Some(syn) = self.pending_syns[i] {
                self.pending_syns.set(i, None);
                assert(self@.pending_syns =~= old(self)@.pending_syns.update(i as int, None));
                return Some(syn);
            }
            i += 1;
        }
        None
    }

    /// One tick of the handshake in slot `index`; see
    /// `handshake_slot_step`.
    #[verifier::rlimit(60)]
    #[verifier::spinoff_prover]
    fn poll_handshake_slot(&mut self, index: usize, tick: u64) -> (r: Option<PassiveTcpProgress>)
        requires
            stack_wf(old(self)@),
            index < PASSIVE_TCP_HANDSHAKE_SLOTS,
            old(self)@.handshakes[index as int] is Some,
        ensures
            stack_wf(final(self)@),
            final(self)@ == handshake_slot_step(old(self)@, tick, index as int).0,
            match r {
                None => handshake_slot_step(old(self)@, tick, index as int).1 is None,
                Some(p) => handshake_slot_step(old(self)@, tick, index as int).1 is Some && passive_progress_is(
                    p,
                    handshake_slot_step(old(self)@, tick, index as int).1,
                    true,
                ),
            },
    {
        reveal(handshake_slot_step);
        assert(self@.handshakes[index as int] == handshake_slot_model(self.passive_tcp@[index as int]));
        let h = self.passive_tcp[index].unwrap();
        assert(handshake_wf(h@));
        if h.failed {
            self.clear_handshake(index);
            return Some(PassiveTcpProgress::Failed(
                PassiveTcpFailure { target: address_from_bytes(h.target), remote_port: h.remote_port, local_port: h.local_port },
            ));
        }
        if h.established {
            self.clear_handshake(index);
            let target = address_from_bytes(h.target);
            return Some(PassiveTcpProgress::Established(
                TcpServerPeer {
                    target,
                    remote_port: h.remote_port,
                    local_port: h.local_port,
                    remote_sequence: h.remote_sequence.wrapping_add(1),
                    local_sequence: h.local_sequence.wrapping_add(1),
                    source_mac: h.source_mac,
                },
                h.early,
            ));
        }
        if tick >= h.deadline {
            if h.attempts >= RETRIES || !self.send_syn_ack(&h) {
                self.clear_handshake(index);
                return Some(PassiveTcpProgress::Failed(
                    PassiveTcpFailure { target: address_from_bytes(h.target), remote_port: h.remote_port, local_port: h.local_port },
                ));
            }
            let mut h1 = h;
            h1.attempts = h.attempts + 1;
            h1.deadline = tick.saturating_add(PASSIVE_TCP_RETRY_TICKS);
            self.put_handshake(index, h1);
        }
        None
    }

    /// One tick of the passive handshakes; see `spec_poll_passive`.
    #[verifier::rlimit(60)]
    #[verifier::spinoff_prover]
    pub fn poll_tcp_passive(&mut self, tick: u64) -> (r: PassiveTcpProgress)
        requires
            stack_wf(old(self)@),
        ensures
            stack_wf(final(self)@),
            final(self)@ == spec_poll_passive(old(self)@, tick).0,
            passive_progress_is(r, spec_poll_passive(old(self)@, tick).1, spec_poll_passive(old(self)@, tick).2),
    {
        if !self.available {
            return PassiveTcpProgress::Idle;
        }
        self.pump_passive_rx(tick);
        let ghost m1 = self@;
        let mut any = false;
        let mut index: usize = 0;
        while index < PASSIVE_TCP_HANDSHAKE_SLOTS
            invariant
                stack_wf(self@),
                index <= PASSIVE_TCP_HANDSHAKE_SLOTS,
                m1 == spec_pump(old(self)@, tick),
                old(self)@.available,
                handshake_scan(m1, tick, 0, false) == handshake_scan(self@, tick, index as nat, any),
            decreases PASSIVE_TCP_HANDSHAKE_SLOTS - index,
        {
            let ghost before = self@;
            let ghost seen = any;
            assert(self@.handshakes[index as int] == handshake_slot_model(self.passive_tcp@[index as int]));
            if self.passive_tcp[index].is_some() {
                any = true;
                let polled = self.poll_handshake_slot(index, tick);
                assert(handshake_scan(before, tick, index as nat, seen) == match handshake_slot_step(before, tick, index as int).1 {
                    Some(e) => (handshake_slot_step(before, tick, index as int).0, Some(e), true),
                    None => handshake_scan(handshake_slot_step(before, tick, index as int).0, tick, index as nat + 1, true),
                });
                if let Some(p) = polled {
                    return p;
                }
            }
            index += 1;
        }
        proof {
            assert(handshake_scan(self@, tick, PASSIVE_TCP_HANDSHAKE_SLOTS as nat, any) == handshake_scan(m1, tick, 0, false));
        }
        match self.take_offered_syn() {
            Some(syn) => PassiveTcpProgress::Syn(syn),
            None => if any {
                PassiveTcpProgress::Pending
            } else {
                PassiveTcpProgress::Idle
            },
        }
    }

    /// Accepts an offered SYN; see `spec_start_passive`.
    #[verifier::rlimit(60)]
    #[verifier::spinoff_prover]
    pub fn start_tcp_passive(&mut self, syn: PassiveTcpSyn, tick: u64) -> (r: bool)
        requires
            stack_wf(old(self)@),
        ensures
            stack_wf(final(self)@),
            (final(self)@, r) == spec_start_passive(old(self)@, syn, tick),
    {
        if !self.available || self.async_udp.is_some() || self.async_tcp.is_some() || syn.target == 0
            || syn.remote_port == 0 || syn.local_port == 0 {
            return false;
        }
        let target = be32_bytes(syn.target);
        if self.stream_slot_for_tuple(target, syn.remote_port, syn.local_port).is_some()
            || self.handshake_slot_for_tuple(target, syn.remote_port, syn.local_port).is_some() {
            return false;
        }
        let index = match self.free_handshake_slot() {
            Some(i) => i,
            None => return false,
        };
        proof {
            lemma_find_free_handshake(self@.handshakes, 0);
        }
        let rotated = (syn.remote_sequence << 13u32) | (syn.remote_sequence >> 19u32);
        let ports = ((syn.local_port as u32) << 16u32) | (syn.remote_port as u32);
        let h = HandshakeOperation {
            target,
            remote_port: syn.remote_port,
            local_port: syn.local_port,
            remote_sequence: syn.remote_sequence,
            local_sequence: 0x90a0_b0c0u32 ^ syn.target ^ ports ^ rotated,
            source_mac: syn.source_mac,
            established: false,
            failed: false,
            early: EarlyStreamData::empty(),
            attempts: 1,
            deadline: tick.saturating_add(PASSIVE_TCP_RETRY_TICKS),
        };
        assert(h.early.bytes@ =~= Seq::new(PASSIVE_TCP_STREAM_BUFFER_CAPACITY as nat, |j: int| 0u8));
        assert(h@ == new_handshake(syn, tick));
        if !self.send_syn_ack(&h) {
            return false;
        }
        self.put_handshake(index, h);
        true
    }

    /// Refuses an offered SYN with a reset; see `spec_reject_syn`.
    pub fn reject_tcp_syn(&mut self, syn: PassiveTcpSyn)
        ensures
            final(self)@ == spec_reject_syn(old(self)@, syn),
    {
        let target = be32_bytes(syn.target);
        let _ = self.send_tcp(
            syn.source_mac,
            target,
            syn.local_port,
            syn.remote_port,
            0,
            syn.remote_sequence.wrapping_add(1),
            0x14,
            no_payload(),
        );
    }

    /// Refuses an established peer with a reset; see `spec_reject_peer`.
    pub fn reject_tcp_peer(&mut self, peer: TcpServerPeer)
        ensures
            final(self)@ == spec_reject_peer(old(self)@, peer),
    {
        let target = be32_bytes(peer.target);
        let _ = self.send_tcp(
            peer.source_mac,
            target,
            peer.local_port,
            peer.remote_port,
            peer.local_sequence,
            peer.remote_sequence,
            0x14,
            no_payload(),
        );
    }

    /// Resets and frees the handshake of a failed tuple; see
    /// `spec_cancel_passive`.
    #[verifier::rlimit(60)]
    #[verifier::spinoff_prover]
    pub fn cancel_tcp_passive(&mut self, failure: PassiveTcpFailure)
        requires
            stack_wf(old(self)@),
        ensures
            stack_wf(final(self)@),
            final(self)@ == spec_cancel_passive(old(self)@, failure),
    {
        let target = be32_bytes(failure.target);
        let index = match self.handshake_slot_for_tuple(target, failure.remote_port, failure.local_port) {
            Some(i) => i,
            None => return,
        };
        proof {
            lemma_find_handshake(self@.handshakes, target@, failure.remote_port, failure.local_port, 0);
        }
        assert(self@.handshakes[index as int] == handshake_slot_model(self.passive_tcp@[index as int]));
        let h = self.passive_tcp[index].unwrap();
        let ghost m0 = self@;
        self.clear_handshake(index);
        let _ = self.send_tcp(
            h.source_mac,
            h.target,
            h.local_port,
            h.remote_port,
            h.local_sequence.wrapping_add(1),
            h.remote_sequence.wrapping_add(1),
            0x14,
            no_payload(),
        );
    }

    /// Whether a handshake is under way.
    pub fn tcp_passive_active(&self) -> (r: bool)
        requires
            stack_wf(self@),
        ensures
            r == exists|i: int| 0 <= i < self@.handshakes.len() && self@.handshakes[i] is Some,
    {
        let mut i: usize = 0;
        while i < self.passive_tcp.len()
            invariant
                i <= self.passive_tcp@.len(),
                self@.handshakes.len() == self.passive_tcp@.len(),
                forall|j: int| 0 <= j < i ==> self@.handshakes[j] is None,
            decreases self.passive_tcp@.len() - i,
        {
            assert(self@.handshakes[i as int] == handshake_slot_model(self.passive_tcp@[i as int]));
            if self.passive_tcp[i].is_some() {
                return true;
            }
            i += 1;
        }
        false
    }
}

/// A handshake fails on a reset only at the exact next sequence; any other
/// segment fails it only when the device refuses the reply.
pub proof fn lemma_handshake_reset_authority(m: StackModel, i: int, p: PassiveSegmentModel, tick: u64)
    requires
        stack_wf(m),
        0 <= i < m.handshakes.len(),
        m.handshakes[i] is Some,
        !m.handshakes[i]->Some_0.failed,
        spec_handle_handshake(m, i, p, tick).handshakes[i] matches Some(h) && h.failed,
    ensures
        has_flag(p.segment.flags, 0x04) ==> p.segment.sequence == wrap_add(
            after_early(m.handshakes[i]->Some_0),
            if m.handshakes[i]->Some_0.early_fin { 1int } else { 0int },
        ),
        !has_flag(p.segment.flags, 0x04) ==> m.link.fail_transmit,
{
    reveal(spec_handle_handshake);
    reveal(spec_send_tcp);
    reveal(crate::network_stack::spec_send_ipv4);
}

} // verus!
