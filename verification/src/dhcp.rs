//! Address configuration by DHCP: discover, offer, request, acknowledge.
//! The client is a state machine; the driver sends what it asks for,
//! polls the card, and hands back what happened.
use vstd::prelude::*;
use crate::net::{
    parse_ipv4_frame, parse_udp, spec_parse_ipv4, spec_parse_udp, spec_transport_checksum_valid,
    transport_checksum_valid,
};
use crate::network::{parse_dhcp, spec_parse_dhcp, DhcpConfig, DhcpScan};
use crate::network_stack::RETRIES;

verus! {

/// The transaction identifier of every exchange.
pub const DHCP_XID: u32 = 0x4745_4e4f;
/// Polls of the card while waiting for one reply.
pub const DHCP_POLL_LIMIT: u64 = 800_000;
pub const DHCP_DISCOVER: u8 = 1;
pub const DHCP_OFFER: u8 = 2;
pub const DHCP_REQUEST: u8 = 3;
pub const DHCP_ACK: u8 = 5;

/// The DHCP reply in a received frame: a UDP datagram from the server port
/// to the client port, with a valid checksum, whose payload is a reply of
/// the expected type to this transaction. Gives the payload and what its
/// options set.
pub open spec fn spec_dhcp_reply(frame: Seq<u8>, xid: u32, expected_type: u8) -> Option<(Seq<u8>, DhcpScan)> {
    match spec_parse_ipv4(frame) {
        None => None,
        Some(ip) => if ip.protocol != 17 || !spec_transport_checksum_valid(ip.source, ip.destination, 17, ip.payload) {
            None
        } else {
            match spec_parse_udp(ip.payload) {
                None => None,
                Some((sp, dp, body)) => if sp != 67 || dp != 68 {
                    None
                } else {
                    match spec_parse_dhcp(body, xid, expected_type) {
                        None => None,
                        Some(st) => Some((body, st)),
                    }
                },
            }
        },
    }
}

/// The configuration a reply gives.
pub open spec fn config_of(c: DhcpConfig, reply: (Seq<u8>, DhcpScan)) -> bool {
    &&& c.address@ == reply.0.subrange(16, 20)
    &&& c.subnet@ == reply.1.subnet
    &&& c.gateway@ == reply.1.gateway
    &&& c.dns@ == reply.1.dns
    &&& c.server@ == reply.1.server
}

/// Reads the DHCP reply of the expected type out of a received frame.
pub fn dhcp_reply(frame: &[u8], xid: u32, expected_type: u8) -> (r: Option<DhcpConfig>)
    ensures
        match (r, spec_dhcp_reply(frame@, xid, expected_type)) {
            (Some(c), Some(reply)) => config_of(c, reply),
            (None, None) => true,
            _ => false,
        },
{
    let ip = match parse_ipv4_frame(frame) {
        None => return None,
        Some(ip) => ip,
    };
    if ip.protocol != 17 || !transport_checksum_valid(ip.source, ip.destination, ip.protocol, ip.payload) {
        return None;
    }
    let udp = match parse_udp(ip.payload) {
        None => return None,
        Some(udp) => udp,
    };
    if udp.source_port != 67 || udp.destination_port != 68 {
        return None;
    }
    parse_dhcp(udp.payload, xid, expected_type)
}

/// Where the exchange stands.
#[derive(Clone, Copy, Debug, PartialEq, Eq)]
pub enum DhcpPhase {
    /// A discover is to be sent.
    SendingDiscover,
    /// Waiting for an offer.
    AwaitOffer,
    /// A request for the offer is to be sent.
    SendingRequest(DhcpConfig),
    /// Waiting for the acknowledgment of the offer.
    AwaitAck(DhcpConfig),
    /// Configured.
    Bound(DhcpConfig),
    /// Every attempt failed.
    Failed,
}

/// What the driver is to do next.
#[derive(Clone, Copy, Debug, PartialEq, Eq)]
pub enum DhcpAction {
    /// Broadcast a discover, then report whether it went out.
    SendDiscover,
    /// Broadcast a request for `address` from `server`, then report
    /// whether it went out.
    SendRequest { address: [u8; 4], server: [u8; 4] },
    /// Poll the card once and hand over the frame, if one came.
    Poll,
    /// Take this configuration: the exchange is over.
    Configure(DhcpConfig),
    /// Give up: the network stays unconfigured.
    GiveUp,
}

#[derive(Clone, Copy, Debug, PartialEq, Eq)]
pub struct DhcpClient {
    /// The attempts begun, the current one included.
    pub attempt: u64,
    /// Polls without the awaited reply in the current wait.
    pub polls: u64,
    pub phase: DhcpPhase,
}

/// What a finished attempt leads to: another from the discover, while
/// attempts remain, else failure.
pub open spec fn spec_retry(c: DhcpClient) -> (DhcpClient, DhcpAction) {
    if c.attempt < RETRIES {
        (DhcpClient { attempt: (c.attempt + 1) as u64, polls: 0, phase: DhcpPhase::SendingDiscover }, DhcpAction::SendDiscover)
    } else {
        (DhcpClient { phase: DhcpPhase::Failed, ..c }, DhcpAction::GiveUp)
    }
}

/// What a phase asks for when the event does not fit it.
pub open spec fn spec_standing_action(phase: DhcpPhase) -> DhcpAction {
    match phase {
        DhcpPhase::SendingDiscover => DhcpAction::SendDiscover,
        DhcpPhase::SendingRequest(o) => DhcpAction::SendRequest { address: o.address, server: o.server },
        DhcpPhase::AwaitOffer => DhcpAction::Poll,
        DhcpPhase::AwaitAck(_) => DhcpAction::Poll,
        DhcpPhase::Bound(c) => DhcpAction::Configure(c),
        DhcpPhase::Failed => DhcpAction::GiveUp,
    }
}

/// A poll without the awaited reply: the wait goes on until the poll
/// limit, and then the attempt has failed.
pub open spec fn spec_missed(c: DhcpClient) -> (DhcpClient, DhcpAction) {
    if c.polls + 1 >= DHCP_POLL_LIMIT {
        spec_retry(c)
    } else {
        (DhcpClient { polls: (c.polls + 1) as u64, ..c }, DhcpAction::Poll)
    }
}

impl DhcpClient {
    /// The attempts stay within the retry budget.
    pub open spec fn wf(&self) -> bool {
        1 <= self.attempt <= RETRIES && self.polls < DHCP_POLL_LIMIT
    }

    /// The first attempt: a discover goes out.
    pub fn start() -> (r: (DhcpClient, DhcpAction))
        ensures
            r.0 == (DhcpClient { attempt: 1, polls: 0, phase: DhcpPhase::SendingDiscover }),
            r.1 == DhcpAction::SendDiscover,
            r.0.wf(),
    {
        (DhcpClient { attempt: 1, polls: 0, phase: DhcpPhase::SendingDiscover }, DhcpAction::SendDiscover)
    }

    fn retry(&mut self) -> (r: DhcpAction)
        requires
            old(self).wf(),
        ensures
            (*final(self), r) == spec_retry(*old(self)),
            final(self).wf(),
    {
        if self.attempt < RETRIES as u64 {
            self.attempt = self.attempt + 1;
            self.polls = 0;
            self.phase = DhcpPhase::SendingDiscover;
            DhcpAction::SendDiscover
        } else {
            self.phase = DhcpPhase::Failed;
            DhcpAction::GiveUp
        }
    }

    fn standing_action(&self) -> (r: DhcpAction)
        ensures
            r == spec_standing_action(self.phase),
    {
        match self.phase {
            DhcpPhase::SendingDiscover => DhcpAction::SendDiscover,
            DhcpPhase::SendingRequest(o) => DhcpAction::SendRequest { address: o.address, server: o.server },
            DhcpPhase::AwaitOffer => DhcpAction::Poll,
            DhcpPhase::AwaitAck(_) => DhcpAction::Poll,
            DhcpPhase::Bound(c) => DhcpAction::Configure(c),
            DhcpPhase::Failed => DhcpAction::GiveUp,
        }
    }

    /// A message was handed to the card (`sent`) or refused: a sent
    /// discover waits for an offer, a sent request for its
    /// acknowledgment, and a refused one ends the attempt.
    pub fn on_sent(&mut self, sent: bool) -> (r: DhcpAction)
        requires
            old(self).wf(),
        ensures
            final(self).wf(),
            (*final(self), r) == match old(self).phase {
                DhcpPhase::SendingDiscover => if sent {
                    (DhcpClient { polls: 0, phase: DhcpPhase::AwaitOffer, ..*old(self) }, DhcpAction::Poll)
                } else {
                    spec_retry(*old(self))
                },
                DhcpPhase::SendingRequest(o) => if sent {
                    (DhcpClient { polls: 0, phase: DhcpPhase::AwaitAck(o), ..*old(self) }, DhcpAction::Poll)
                } else {
                    spec_retry(*old(self))
                },
                _ => (*old(self), spec_standing_action(old(self).phase)),
            },
    {
        match self.phase {
            DhcpPhase::SendingDiscover => {
                if sent {
                    self.polls = 0;
                    self.phase = DhcpPhase::AwaitOffer;
                    DhcpAction::Poll
                } else {
                    self.retry()
                }
            },
            DhcpPhase::SendingRequest(o) => {
                if sent {
                    self.polls = 0;
                    self.phase = DhcpPhase::AwaitAck(o);
                    DhcpAction::Poll
                } else {
                    self.retry()
                }
            },
            _ => self.standing_action(),
        }
    }

    /// One poll of the card, with the frame it gave, if any. An offer
    /// leads to a request for it; its acknowledgment configures the
    /// network; anything else counts against the wait.
    pub fn on_poll(&mut self, frame: Option<&[u8]>) -> (r: DhcpAction)
        requires
            old(self).wf(),
        ensures
            final(self).wf(),
            match old(self).phase {
                DhcpPhase::AwaitOffer => {
                    let reply = match frame {
                        Some(f) => spec_dhcp_reply(f@, DHCP_XID, DHCP_OFFER),
                        None => None,
                    };
                    match reply {
                        Some(offer) => final(self).attempt == old(self).attempt && final(self).polls == old(self).polls
                            && (final(self).phase matches DhcpPhase::SendingRequest(o) && config_of(o, offer)
                            && r == DhcpAction::SendRequest { address: o.address, server: o.server }),
                        None => (*final(self), r) == spec_missed(*old(self)),
                    }
                },
                DhcpPhase::AwaitAck(o) => {
                    let reply = match frame {
                        Some(f) => spec_dhcp_reply(f@, DHCP_XID, DHCP_ACK),
                        None => None,
                    };
                    match reply {
                        Some(ack) => final(self).attempt == old(self).attempt && final(self).polls == old(self).polls
                            && (final(self).phase matches DhcpPhase::Bound(c) && config_of(c, ack)
                            && r == DhcpAction::Configure(c)),
                        None => (*final(self), r) == spec_missed(*old(self)),
                    }
                },
                _ => *final(self) == *old(self) && r == spec_standing_action(old(self).phase),
            },
    {
        match self.phase {
            DhcpPhase::AwaitOffer => {
                let reply = match frame {
                    Some(f) => dhcp_reply(f, DHCP_XID, DHCP_OFFER),
                    None => None,
                };
                match reply {
                    Some(o) => {
                        self.phase = DhcpPhase::SendingRequest(o);
                        DhcpAction::SendRequest { address: o.address, server: o.server }
                    },
                    None => self.missed(),
                }
            },
            DhcpPhase::AwaitAck(_) => {
                let reply = match frame {
                    Some(f) => dhcp_reply(f, DHCP_XID, DHCP_ACK),
                    None => None,
                };
                match reply {
                    Some(c) => {
                        self.phase = DhcpPhase::Bound(c);
                        DhcpAction::Configure(c)
                    },
                    None => self.missed(),
                }
            },
            _ => self.standing_action(),
        }
    }

    fn missed(&mut self) -> (r: DhcpAction)
        requires
            old(self).wf(),
        ensures
            (*final(self), r) == spec_missed(*old(self)),
            final(self).wf(),
    {
        if self.polls + 1 >= DHCP_POLL_LIMIT {
            self.retry()
        } else {
            self.polls = self.polls + 1;
            DhcpAction::Poll
        }
    }
}

/// The exchange never outlasts its budget: a client that is not done has
/// attempts left or is on its last, and every failed attempt either starts
/// the next from a discover or gives up for good after the last.
pub proof fn lemma_retry_bounded(c: DhcpClient)
    requires
        c.wf(),
    ensures
        spec_retry(c).0.wf() || spec_retry(c).0.phase == DhcpPhase::Failed,
        spec_retry(c).1 == DhcpAction::GiveUp <==> c.attempt >= RETRIES,
        spec_retry(c).0.attempt <= RETRIES,
{
}

} // verus!
