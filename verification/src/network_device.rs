//! The decisions of the network card drivers: which PCI function is a
//! virtio network card and where its registers lie, what a completed
//! virtqueue descriptor hands over, and how the NE2000 receive ring is
//! read. The port and memory-mapped register accesses themselves are the
//! driver's.
use vstd::prelude::*;
use crate::wire::{le16, le32, read_le16, read_le32};

verus! {

pub const MAX_FRAME: usize = 1518;
pub const PCI_VENDOR_VIRTIO: u16 = 0x1af4;
pub const PCI_DEVICE_VIRTIO_NET_TRANSITIONAL: u16 = 0x1000;
pub const PCI_DEVICE_VIRTIO_MODERN_MIN: u16 = 0x1040;
pub const PCI_DEVICE_VIRTIO_MODERN_MAX: u16 = 0x107f;
pub const PCI_CLASS_NETWORK: u8 = 0x02;
pub const PCI_CAP_VENDOR_SPECIFIC: u8 = 0x09;
pub const VIRTIO_PCI_CAP_COMMON_CFG: u8 = 1;
pub const VIRTIO_PCI_CAP_NOTIFY_CFG: u8 = 2;
pub const VIRTIO_PCI_CAP_DEVICE_CFG: u8 = 4;
/// The bytes of PCI configuration space of one function.
pub const PCI_CONFIG_BYTES: usize = 256;
/// How many capabilities the walk follows at most.
pub const PCI_CAPABILITY_LIMIT: u32 = 48;

/// The memory-mapped regions of a modern virtio PCI function.
#[derive(Clone, Copy, Debug, PartialEq, Eq, Structural)]
pub struct VirtioPciRegions {
    pub common: u64,
    pub notify: u64,
    pub notify_multiplier: u32,
    pub device: u64,
}

/// The configuration byte at `offset`.
pub open spec fn cfg8(c: Seq<u8>, offset: u8) -> u8 {
    c[offset as int]
}

/// The configuration dword that holds `offset`.
pub open spec fn cfg32(c: Seq<u8>, offset: u8) -> u32 {
    le32(c, (offset & 0xfc) as int) as u32
}

/// `offset + k`, wrapping within configuration space.
pub open spec fn cfg_at(offset: u8, k: u8) -> u8 {
    ((offset as int + k as int) % 256) as u8
}

/// The identity dword of a virtio network card: the virtio vendor, and a
/// transitional or modern network device number.
pub open spec fn spec_is_virtio_net(id: u32) -> bool {
    let vendor = id % 0x10000;
    let device = id / 0x10000;
    vendor == PCI_VENDOR_VIRTIO && (device == PCI_DEVICE_VIRTIO_NET_TRANSITIONAL || (
    PCI_DEVICE_VIRTIO_MODERN_MIN <= device <= PCI_DEVICE_VIRTIO_MODERN_MAX))
}

/// Whether a function with identity `id` and class `class` is a virtio
/// network card.
pub fn is_virtio_net(id: u32, class: u8) -> (r: bool)
    ensures
        r == (spec_is_virtio_net(id) && class == PCI_CLASS_NETWORK),
{
    let vendor = (id & 0xffff) as u16;
    let device = (id >> 16) as u16;
    assert(vendor == id % 0x10000 && device == id / 0x10000) by (bit_vector)
        requires
            vendor == (id & 0xffff) as u16,
            device == (id >> 16) as u16,
    ;
    if vendor != PCI_VENDOR_VIRTIO {
        return false;
    }
    if device != PCI_DEVICE_VIRTIO_NET_TRANSITIONAL && !(PCI_DEVICE_VIRTIO_MODERN_MIN <= device
        && device <= PCI_DEVICE_VIRTIO_MODERN_MAX) {
        return false;
    }
    class == PCI_CLASS_NETWORK
}

/// The base address a BAR decodes to: a memory BAR, 32-bit or (all but
/// the last) 64-bit, with a nonzero address.
#[verifier::opaque]
pub open spec fn spec_bar_base(c: Seq<u8>, bar: u8) -> Option<u64> {
    if bar >= 6 {
        None
    } else {
        let offset = (0x10 + bar * 4) as u8;
        let low = cfg32(c, offset);
        let kind = (low >> 1u32) & 3u32;
        if low & 1u32 != 0 {
            None
        } else if kind == 2 {
            if bar >= 5 {
                None
            } else {
                let base = ((low & !0xfu32) as u64) | ((cfg32(c, (offset + 4) as u8) as u64) << 32u64);
                if base != 0 { Some(base) } else { None }
            }
        } else if kind != 0 {
            None
        } else {
            let base = (low & !0xfu32) as u64;
            if base != 0 { Some(base) } else { None }
        }
    }
}

fn config_u32(config: &[u8], offset: u8) -> (r: u32)
    requires
        config@.len() == PCI_CONFIG_BYTES,
    ensures
        r == cfg32(config@, offset),
{
    let aligned = offset & 0xfc;
    assert(aligned <= 0xfc) by (bit_vector)
        requires
            aligned == offset & 0xfc,
    ;
    read_le32(config, aligned as usize)
}

pub fn bar_base(config: &[u8], bar: u8) -> (r: Option<u64>)
    requires
        config@.len() == PCI_CONFIG_BYTES,
    ensures
        r == spec_bar_base(config@, bar),
{
    reveal(spec_bar_base);
    if bar >= 6 {
        return None;
    }
    let offset = 0x10u8 + bar * 4;
    let low = config_u32(config, offset);
    if low & 1 != 0 {
        return None;
    }
    let kind = (low >> 1) & 0x03;
    let mut base = (low & !0x0f) as u64;
    if kind == 0x02 {
        if bar >= 5 {
            return None;
        }
        base = base | ((config_u32(config, offset + 4) as u64) << 32);
    } else if kind != 0 {
        return None;
    }
    if base != 0 {
        Some(base)
    } else {
        None
    }
}

/// What the capability walk has found so far.
#[derive(Clone, Copy, Debug, PartialEq, Eq, Structural)]
pub struct CapabilityScan {
    pub common: Option<u64>,
    pub notify: Option<u64>,
    pub notify_multiplier: u32,
    pub device: Option<u64>,
}

/// What the capability at `cap` adds: a vendor-specific capability at
/// least 16 bytes long, over a nonzero region of a decodable BAR, names
/// the common configuration (a region of 56 bytes at least), the notify
/// area with its multiplier (in a capability of 20 bytes at least) or the
/// device configuration (a region of 6 bytes at least).
#[verifier::opaque]
pub open spec fn scan_step(c: Seq<u8>, cap: u8, acc: CapabilityScan) -> CapabilityScan {
    let length = cfg8(c, cfg_at(cap, 2));
    let kind = cfg8(c, cfg_at(cap, 3));
    let bar = cfg8(c, cfg_at(cap, 4));
    let offset = cfg32(c, cfg_at(cap, 8));
    let region_length = cfg32(c, cfg_at(cap, 12));
    if cfg8(c, cap) != PCI_CAP_VENDOR_SPECIFIC || length < 16 || region_length == 0 {
        acc
    } else {
        match spec_bar_base(c, bar) {
            None => acc,
            Some(b) => if b + offset > u64::MAX {
                acc
            } else {
                let base = (b + offset) as u64;
                if kind == VIRTIO_PCI_CAP_COMMON_CFG && region_length >= 56 {
                    CapabilityScan { common: Some(base), ..acc }
                } else if kind == VIRTIO_PCI_CAP_NOTIFY_CFG && length >= 20 {
                    CapabilityScan {
                        notify: Some(base),
                        notify_multiplier: cfg32(c, cfg_at(cap, 16)),
                        ..acc
                    }
                } else if kind == VIRTIO_PCI_CAP_DEVICE_CFG && region_length >= 6 {
                    CapabilityScan { device: Some(base), ..acc }
                } else {
                    acc
                }
            },
        }
    }
}

/// The walk of the capability list from `cap`, for at most `fuel` more
/// capabilities: it stops below offset 0x40, at a zero link, or at a
/// capability that links to itself.
pub open spec fn scan(c: Seq<u8>, cap: u8, fuel: nat, acc: CapabilityScan) -> CapabilityScan
    decreases fuel,
{
    if fuel == 0 || cap < 0x40 {
        acc
    } else {
        let next = cfg8(c, cfg_at(cap, 1)) & 0xfc;
        let acc2 = scan_step(c, cap, acc);
        if next == 0 || next == cap {
            acc2
        } else {
            scan(c, next, (fuel - 1) as nat, acc2)
        }
    }
}

pub open spec fn empty_scan() -> CapabilityScan {
    CapabilityScan { common: None, notify: None, notify_multiplier: 0, device: None }
}

/// The regions of a modern virtio function from its configuration space:
/// none unless it has a capability list, and the walk found the common
/// configuration, the notify area with a nonzero multiplier, and the
/// device configuration.
pub open spec fn spec_virtio_regions(c: Seq<u8>) -> Option<VirtioPciRegions> {
    if le16(c, 6) as u16 & 0x10 == 0 {
        None
    } else {
        let found = scan(c, cfg8(c, 0x34) & 0xfc, PCI_CAPABILITY_LIMIT as nat, empty_scan());
        match (found.common, found.notify, found.device) {
            (Some(common), Some(notify), Some(device)) => if found.notify_multiplier != 0 {
                Some(
                    VirtioPciRegions {
                        common,
                        notify,
                        notify_multiplier: found.notify_multiplier,
                        device,
                    },
                )
            } else {
                None
            },
            _ => None,
        }
    }
}

fn scan_capability(config: &[u8], cap: u8, acc: CapabilityScan) -> (r: CapabilityScan)
    requires
        config@.len() == PCI_CONFIG_BYTES,
    ensures
        r == scan_step(config@, cap, acc),
{
    reveal(scan_step);
    assert(cap.wrapping_add(2) == cfg_at(cap, 2) && cap.wrapping_add(3) == cfg_at(cap, 3) && cap.wrapping_add(4)
        == cfg_at(cap, 4) && cap.wrapping_add(8) == cfg_at(cap, 8) && cap.wrapping_add(12) == cfg_at(cap, 12)
        && cap.wrapping_add(16) == cfg_at(cap, 16));
    if config[cap as usize] != PCI_CAP_VENDOR_SPECIFIC {
        return acc;
    }
    let length = config[cap.wrapping_add(2) as usize];
    let kind = config[cap.wrapping_add(3) as usize];
    let bar = config[cap.wrapping_add(4) as usize];
    let offset = config_u32(config, cap.wrapping_add(8));
    let region_length = config_u32(config, cap.wrapping_add(12));
    if length < 16 || region_length == 0 {
        return acc;
    }
    let b = match bar_base(config, bar) {
        Some(b) => b,
        None => return acc,
    };
    let base = match b.checked_add(offset as u64) {
        Some(base) => base,
        None => return acc,
    };
    if kind == VIRTIO_PCI_CAP_COMMON_CFG && region_length >= 56 {
        CapabilityScan { common: Some(base), ..acc }
    } else if kind == VIRTIO_PCI_CAP_NOTIFY_CFG && length >= 20 {
        CapabilityScan {
            notify: Some(base),
            notify_multiplier: config_u32(config, cap.wrapping_add(16)),
            ..acc
        }
    } else if kind == VIRTIO_PCI_CAP_DEVICE_CFG && region_length >= 6 {
        CapabilityScan { device: Some(base), ..acc }
    } else {
        acc
    }
}

/// Finds the regions of a modern virtio function in its configuration
/// space.
pub fn virtio_regions(config: &[u8]) -> (r: Option<VirtioPciRegions>)
    requires
        config@.len() == PCI_CONFIG_BYTES,
    ensures
        r == spec_virtio_regions(config@),
{
    if read_le16(config, 6) & 0x10 == 0 {
        return None;
    }
    let mut found = CapabilityScan { common: None, notify: None, notify_multiplier: 0, device: None };
    let mut cap = config[0x34] & 0xfc;
    let mut fuel: u32 = PCI_CAPABILITY_LIMIT;
    let ghost start = cap;
    while fuel > 0 && cap >= 0x40
        invariant
            config@.len() == PCI_CONFIG_BYTES,
            fuel <= PCI_CAPABILITY_LIMIT,
            scan(config@, start, PCI_CAPABILITY_LIMIT as nat, empty_scan()) == scan(config@, cap, fuel as nat, found),
        decreases fuel,
    {
        assert(cap.wrapping_add(1) == cfg_at(cap, 1));
        let next = config[cap.wrapping_add(1) as usize] & 0xfc;
        found = scan_capability(config, cap, found);
        if next == 0 || next == cap {
            fuel = 0;
        } else {
            cap = next;
            fuel -= 1;
        }
    }
    let (common, notify, device) = match (found.common, found.notify, found.device) {
        (Some(common), Some(notify), Some(device)) => (common, notify, device),
        _ => return None,
    };
    if found.notify_multiplier == 0 {
        return None;
    }
    Some(VirtioPciRegions { common, notify, notify_multiplier: found.notify_multiplier, device })
}

/// Bytes of the header in front of each virtio network frame.
pub const VIRTIO_NET_HEADER_BYTES: usize = 12;
/// Descriptors in each virtqueue.
pub const VIRTQUEUE_SIZE: usize = 8;
/// Bytes of each virtqueue buffer.
pub const VIRTIO_BUFFER_BYTES: usize = 2048;
/// The shortest frame put on the wire; shorter ones are padded.
pub const MIN_WIRE_FRAME: usize = 60;
/// The NE2000 transmit page and receive ring, in 256-byte pages.
pub const NE2000_TX_PAGE: u8 = 0x40;
pub const NE2000_RX_START: u8 = 0x46;
pub const NE2000_RX_STOP: u8 = 0x80;

/// Who holds a packet buffer.
#[derive(Clone, Copy, Debug, PartialEq, Eq, Structural)]
pub enum PacketOwner {
    Free,
    Driver,
    Stack,
}

/// One received frame on its way from a driver to the stack.
#[derive(Clone, Copy)]
pub struct PacketBuffer {
    pub bytes: [u8; MAX_FRAME],
    pub len: usize,
    pub owner: PacketOwner,
}

impl PacketBuffer {
    pub fn empty() -> (r: Self)
        ensures
            r.len == 0,
            r.owner == PacketOwner::Free,
            r.bytes@ == Seq::new(MAX_FRAME as nat, |i: int| 0u8),
    {
        let r = PacketBuffer { bytes: [0u8; MAX_FRAME], len: 0, owner: PacketOwner::Free };
        assert(r.bytes@ =~= Seq::new(MAX_FRAME as nat, |i: int| 0u8));
        r
    }

    /// Hands the stack the `len` bytes of `source` from `start`.
    pub fn deliver(&mut self, source: &[u8], start: usize, len: usize)
        requires
            start + len <= source@.len(),
            len <= MAX_FRAME,
        ensures
            final(self).len == len,
            final(self).owner == PacketOwner::Stack,
            final(self).bytes@.subrange(0, len as int) == source@.subrange(start as int, start + len),
            final(self).bytes@.subrange(len as int, MAX_FRAME as int) == old(self).bytes@.subrange(
                len as int,
                MAX_FRAME as int,
            ),
    {
        self.owner = PacketOwner::Driver;
        let available = source.len();
        let mut i: usize = 0;
        while i < len
            invariant
                start + len <= source@.len(),
                available == source@.len(),
                len <= MAX_FRAME,
                i <= len,
                self.bytes@.len() == MAX_FRAME,
                forall|j: int| 0 <= j < i ==> self.bytes@[j] == source@[start + j],
                forall|j: int| len <= j < MAX_FRAME ==> self.bytes@[j] == old(self).bytes@[j],
            decreases len - i,
        {
            assert(start + i < available);
            self.bytes[i] = source[start + i];
            i += 1;
        }
        self.len = len;
        self.owner = PacketOwner::Stack;
        assert(self.bytes@.subrange(0, len as int) =~= source@.subrange(start as int, start + len));
        assert(self.bytes@.subrange(len as int, MAX_FRAME as int) =~= old(self).bytes@.subrange(
            len as int,
            MAX_FRAME as int,
        ));
    }
}

/// How long a frame is on the wire: refused above the largest frame,
/// padded to the shortest.
pub fn wire_length(frame_len: usize) -> (r: Option<usize>)
    ensures
        frame_len > MAX_FRAME ==> r is None,
        frame_len <= MAX_FRAME ==> r == Some(if frame_len < MIN_WIRE_FRAME { MIN_WIRE_FRAME } else { frame_len }),
{
    if frame_len > MAX_FRAME {
        return None;
    }
    Some(if frame_len < MIN_WIRE_FRAME { MIN_WIRE_FRAME } else { frame_len })
}

/// One more, wrapping at 16 bits, as ring indices do.
pub open spec fn next_index(v: u16) -> u16 {
    if v == u16::MAX { 0 } else { (v + 1) as u16 }
}

/// What a completed receive descriptor gives: the frame for the stack
/// (the descriptor and the frame's length), if the completion is sound,
/// and the descriptor to offer the device again (the slot of the
/// available ring, and the descriptor), if it names one.
#[derive(Clone, Copy, Debug, PartialEq, Eq)]
pub struct RxCompletion {
    pub frame: Option<(usize, usize)>,
    pub recycle: Option<(usize, u16)>,
    pub available_index: u16,
}

/// The driver state of a modern virtio network card.
#[derive(Clone, Copy, Debug, PartialEq, Eq)]
pub struct VirtioNet {
    pub common: u64,
    pub rx_notify: u64,
    pub tx_notify: u64,
    pub mac: [u8; 6],
    pub rx_available: u16,
    pub rx_used: u16,
    pub tx_available: u16,
    pub tx_used: u16,
}

/// The doorbell of a queue: the notify area plus its offset times the
/// multiplier, or zero where that does not fit.
pub fn notify_address(notify: u64, offset: u16, multiplier: u32) -> (r: u64)
    ensures
        r == if notify + offset * multiplier <= u64::MAX { (notify + offset * multiplier) as u64 } else { 0 },
{
    assert(offset * multiplier <= 0xffff * 0xffff_ffff) by (nonlinear_arith)
        requires
            offset <= 0xffff,
            multiplier <= 0xffff_ffff,
    ;
    let step = (offset as u64) * (multiplier as u64);
    match notify.checked_add(step) {
        Some(a) => a,
        None => 0,
    }
}

impl VirtioNet {
    /// How many receive buffers the device holds: offered and not yet
    /// taken back, counted modulo the 16-bit ring indices.
    pub open spec fn rx_offered(&self) -> int {
        (self.rx_available - self.rx_used) % 0x10000
    }

    pub fn new() -> (r: Self)
        ensures
            r.common == 0 && r.rx_notify == 0 && r.tx_notify == 0,
            r.mac@ == seq![0u8, 0u8, 0u8, 0u8, 0u8, 0u8],
            r.rx_available == 0 && r.rx_used == 0 && r.tx_available == 0 && r.tx_used == 0,
    {
        let r = VirtioNet {
            common: 0,
            rx_notify: 0,
            tx_notify: 0,
            mac: [0u8; 6],
            rx_available: 0,
            rx_used: 0,
            tx_available: 0,
            tx_used: 0,
        };
        assert(r.mac@ =~= seq![0u8, 0u8, 0u8, 0u8, 0u8, 0u8]);
        r
    }

    /// The ring state once every receive buffer is offered and nothing is
    /// sent.
    pub fn rings_ready(&mut self)
        ensures
            final(self).rx_offered() == VIRTQUEUE_SIZE,
            *final(self) == (VirtioNet {
                rx_available: VIRTQUEUE_SIZE as u16,
                rx_used: 0,
                tx_available: 0,
                tx_used: 0,
                ..*old(self)
            }),
    {
        self.rx_available = VIRTQUEUE_SIZE as u16;
        self.rx_used = 0;
        self.tx_available = 0;
        self.tx_used = 0;
    }

    /// The slot of the used ring to read next, if the device has
    /// completed a receive past the last one taken.
    pub fn rx_pending(&self, used_index: u16) -> (r: Option<usize>)
        ensures
            r == if self.rx_used == used_index { None } else { Some((self.rx_used % 8) as usize) },
    {
        if self.rx_used == used_index {
            None
        } else {
            Some((self.rx_used % 8) as usize)
        }
    }

    /// Takes the completed receive `(id, length)`: sound when it names a
    /// descriptor and a length between the header and the buffer size; the
    /// frame goes to the stack when it also fits a packet buffer, and a
    /// named descriptor is offered again.
    pub fn complete_rx(&mut self, id: u32, length: u32) -> (r: RxCompletion)
        ensures
            final(self).rx_used == next_index(old(self).rx_used),
            r.frame == if id < VIRTQUEUE_SIZE && VIRTIO_NET_HEADER_BYTES <= length <= VIRTIO_BUFFER_BYTES
                && length - VIRTIO_NET_HEADER_BYTES <= MAX_FRAME {
                Some((id as usize, (length - VIRTIO_NET_HEADER_BYTES) as usize))
            } else {
                None::<(usize, usize)>
            },
            r.recycle == if id < VIRTQUEUE_SIZE {
                Some(((old(self).rx_available % 8) as usize, id as u16))
            } else {
                None::<(usize, u16)>
            },
            final(self).rx_available == if id < VIRTQUEUE_SIZE {
                next_index(old(self).rx_available)
            } else {
                old(self).rx_available
            },
            r.available_index == final(self).rx_available,
            id < VIRTQUEUE_SIZE ==> final(self).rx_offered() == old(self).rx_offered(),
            final(self).common == old(self).common && final(self).mac == old(self).mac,
            final(self).rx_notify == old(self).rx_notify && final(self).tx_notify == old(self).tx_notify,
            final(self).tx_available == old(self).tx_available && final(self).tx_used == old(self).tx_used,
    {
        self.rx_used = self.rx_used.wrapping_add(1);
        let descriptor = id as usize;
        let valid = id < VIRTQUEUE_SIZE as u32 && length as usize >= VIRTIO_NET_HEADER_BYTES && length as usize
            <= VIRTIO_BUFFER_BYTES;
        let frame_length = if valid { length as usize - VIRTIO_NET_HEADER_BYTES } else { 0 };
        let frame = if valid && frame_length <= MAX_FRAME { Some((descriptor, frame_length)) } else { None };
        let recycle = if descriptor < VIRTQUEUE_SIZE {
            let slot = (self.rx_available % 8) as usize;
            self.rx_available = self.rx_available.wrapping_add(1);
            Some((slot, descriptor as u16))
        } else {
            None
        };
        RxCompletion { frame, recycle, available_index: self.rx_available }
    }

    /// How a frame is laid out in the transmit buffer: its length on the
    /// wire and the buffer's length with the header in front; refused
    /// above the largest frame.
    pub fn tx_layout(frame_len: usize) -> (r: Option<(usize, usize)>)
        ensures
            frame_len > MAX_FRAME ==> r is None,
            frame_len <= MAX_FRAME ==> r == Some(
                (
                    if frame_len < MIN_WIRE_FRAME { MIN_WIRE_FRAME } else { frame_len },
                    (VIRTIO_NET_HEADER_BYTES + if frame_len < MIN_WIRE_FRAME { MIN_WIRE_FRAME } else { frame_len }) as usize,
                ),
            ),
    {
        let wire = match wire_length(frame_len) {
            Some(w) => w,
            None => return None,
        };
        let total = VIRTIO_NET_HEADER_BYTES + wire;
        if total > VIRTIO_BUFFER_BYTES {
            return None;
        }
        Some((wire, total))
    }

    /// Offers the transmit descriptor: the slot of the available ring it
    /// goes in, and the new available index.
    pub fn submit_tx(&mut self) -> (r: (usize, u16))
        ensures
            r.0 == (old(self).tx_available % 8) as usize,
            final(self).tx_available == next_index(old(self).tx_available),
            r.1 == final(self).tx_available,
            *final(self) == (VirtioNet { tx_available: final(self).tx_available, ..*old(self) }),
    {
        let slot = (self.tx_available % 8) as usize;
        self.tx_available = self.tx_available.wrapping_add(1);
        (slot, self.tx_available)
    }

    /// The slot of the used ring to read next, if the device has completed
    /// a transmission past the last one taken.
    pub fn tx_pending(&self, used_index: u16) -> (r: Option<usize>)
        ensures
            r == if self.tx_used == used_index { None } else { Some((self.tx_used % 8) as usize) },
    {
        if self.tx_used == used_index {
            None
        } else {
            Some((self.tx_used % 8) as usize)
        }
    }

    /// Takes a completed transmission; it succeeded when the device names
    /// the one transmit descriptor.
    pub fn complete_tx(&mut self, id: u32) -> (r: bool)
        ensures
            r == (id == 0),
            *final(self) == (VirtioNet { tx_used: next_index(old(self).tx_used), ..*old(self) }),
    {
        self.tx_used = self.tx_used.wrapping_add(1);
        id == 0
    }
}

/// Where the NE2000 stands after reading a receive header.
#[derive(Clone, Copy, Debug, PartialEq, Eq, Structural)]
pub enum RxHeader {
    /// A frame of `len` bytes at `payload`; the ring continues at page
    /// `next`.
    Frame { payload: u16, len: usize, next: u8 },
    /// The header was corrupt: the ring restarts, and the boundary
    /// register takes `boundary`.
    Reset { boundary: u8 },
}

/// One or two reads of the receive ring: the second, where there is one,
/// continues at the ring's start.
#[derive(Clone, Copy, Debug, PartialEq, Eq)]
pub struct RingRead {
    pub first: (u16, usize),
    pub second: Option<(u16, usize)>,
}

/// The receive page a ring that starts over uses: the current page where
/// it lies in the ring, else the page after the start.
pub open spec fn spec_reset_page(current: u8) -> u8 {
    if NE2000_RX_START <= current < NE2000_RX_STOP { current } else { (NE2000_RX_START + 1) as u8 }
}

/// The boundary register that follows a receive page: the page before it,
/// wrapping to the ring's last page.
pub open spec fn spec_boundary(next: u8) -> u8 {
    if next == NE2000_RX_START { (NE2000_RX_STOP - 1) as u8 } else { (next - 1) as u8 }
}

pub fn boundary_for(next: u8) -> (r: u8)
    requires
        NE2000_RX_START <= next < NE2000_RX_STOP,
    ensures
        r == spec_boundary(next),
{
    if next == NE2000_RX_START {
        NE2000_RX_STOP - 1
    } else {
        next - 1
    }
}

/// The driver state of an NE2000 card.
#[derive(Clone, Copy, Debug, PartialEq, Eq)]
pub struct Ne2000 {
    pub mac: [u8; 6],
    pub next_rx: u8,
}

/// The station address in the card's PROM: every other byte of its first
/// twelve; refused when all zero or all ones.
pub fn mac_from_prom(prom: &[u8; 32]) -> (r: Option<[u8; 6]>)
    ensures
        ({
            let mac = Seq::new(6, |i: int| prom@[2 * i]);
            &&& (mac == Seq::new(6, |i: int| 0u8) || mac == Seq::new(6, |i: int| 0xffu8)) ==> r is None
            &&& !(mac == Seq::new(6, |i: int| 0u8) || mac == Seq::new(6, |i: int| 0xffu8)) ==> (r matches Some(
                m,
            ) && m@ == mac)
        }),
{
    let mut mac = [0u8; 6];
    let mut i: usize = 0;
    while i < 6
        invariant
            i <= 6,
            forall|j: int| 0 <= j < i ==> mac@[j] == prom@[2 * j],
        decreases 6 - i,
    {
        mac[i] = prom[2 * i];
        i += 1;
    }
    let ghost want = Seq::new(6, |i: int| prom@[2 * i]);
    assert(mac@ =~= want);
    let mut zero = true;
    let mut ones = true;
    let mut k: usize = 0;
    while k < 6
        invariant
            k <= 6,
            mac@ == want,
            zero == (forall|j: int| 0 <= j < k ==> mac@[j] == 0),
            ones == (forall|j: int| 0 <= j < k ==> mac@[j] == 0xff),
        decreases 6 - k,
    {
        if mac[k] != 0 {
            zero = false;
        }
        if mac[k] != 0xff {
            ones = false;
        }
        k += 1;
    }
    if zero {
        assert(want =~= Seq::new(6, |i: int| 0u8));
        return None;
    }
    if ones {
        assert(want =~= Seq::new(6, |i: int| 0xffu8));
        return None;
    }
    proof {
        if want == Seq::new(6, |i: int| 0u8) {
            assert(forall|j: int| 0 <= j < 6 ==> mac@[j] == 0);
        }
        if want == Seq::new(6, |i: int| 0xffu8) {
            assert(forall|j: int| 0 <= j < 6 ==> mac@[j] == 0xff);
        }
    }
    Some(mac)
}

impl Ne2000 {
    pub fn new() -> (r: Self)
        ensures
            r.mac@ == seq![0u8, 0u8, 0u8, 0u8, 0u8, 0u8],
            r.next_rx == NE2000_RX_START + 1,
    {
        let r = Ne2000 { mac: [0u8; 6], next_rx: NE2000_RX_START + 1 };
        assert(r.mac@ =~= seq![0u8, 0u8, 0u8, 0u8, 0u8, 0u8]);
        r
    }

    /// The receive ring holds pages from its start up to its stop.
    pub open spec fn wf(&self) -> bool {
        NE2000_RX_START <= self.next_rx < NE2000_RX_STOP
    }

    /// The reads that fetch `len` bytes of the receive ring from
    /// `address`, split where they pass the ring's end.
    pub fn ring_segments(address: u16, len: usize) -> (r: RingRead)
        requires
            address <= 0x8000,
            address + len <= u16::MAX,
        ensures
            address + len <= 0x8000 ==> r == (RingRead { first: (address, len), second: None }),
            address + len > 0x8000 ==> r == (RingRead {
                first: (address, (0x8000 - address) as usize),
                second: Some((0x4600u16, (len - (0x8000 - address)) as usize)),
            }),
    {
        let ring_end: u16 = 0x8000;
        if address + len as u16 <= ring_end {
            return RingRead { first: (address, len), second: None };
        }
        let first = (ring_end - address) as usize;
        RingRead { first: (address, first), second: Some((0x4600u16, len - first)) }
    }

    /// The address of the next receive header, unless the ring is empty
    /// (the card's current page is the one to read next).
    pub fn rx_pending(&self, current: u8) -> (r: Option<u16>)
        requires
            self.wf(),
        ensures
            r == if self.next_rx == current { None } else { Some((self.next_rx * 256) as u16) },
    {
        if self.next_rx == current {
            return None;
        }
        Some((self.next_rx as u16) * 256)
    }

    /// Reads a receive header: a frame when its status says received, its
    /// next page lies in the ring and its length holds the header and at
    /// most a frame; else the ring starts over at the card's current page.
    pub fn accept_header(&mut self, current: u8, header: [u8; 4]) -> (r: RxHeader)
        requires
            old(self).wf(),
        ensures
            final(self).wf(),
            final(self).mac == old(self).mac,
            ({
                let next = header[1];
                let recorded = header[2] + header[3] * 256;
                if header[0] % 2 == 1 && NE2000_RX_START <= next < NE2000_RX_STOP && 4 <= recorded <= MAX_FRAME + 4 {
                    &&& r == (RxHeader::Frame {
                        payload: (old(self).next_rx * 256 + 4) as u16,
                        len: (recorded - 4) as usize,
                        next,
                    })
                    &&& final(self).next_rx == old(self).next_rx
                } else {
                    &&& final(self).next_rx == spec_reset_page(current)
                    &&& r == (RxHeader::Reset { boundary: spec_boundary(spec_reset_page(current)) })
                }
            }),
    {
        let next = header[1];
        let recorded = (header[2] as usize) + (header[3] as usize) * 256;
        let status = header[0];
        let received = status & 1 != 0;
        assert(received == (status % 2 == 1)) by (bit_vector)
            requires
                received == (status & 1 != 0),
        ;
        if !received || !(NE2000_RX_START <= next && next < NE2000_RX_STOP) || !(4 <= recorded && recorded
            <= MAX_FRAME + 4) {
            self.next_rx = if NE2000_RX_START <= current && current < NE2000_RX_STOP {
                current
            } else {
                NE2000_RX_START + 1
            };
            return RxHeader::Reset { boundary: boundary_for(self.next_rx) };
        }
        RxHeader::Frame { payload: (self.next_rx as u16) * 256 + 4, len: recorded - 4, next }
    }

    /// Takes a frame whose payload was read: the ring continues at `next`,
    /// and the boundary register takes the page before it.
    pub fn finish_receive(&mut self, next: u8) -> (r: u8)
        requires
            NE2000_RX_START <= next < NE2000_RX_STOP,
        ensures
            final(self).next_rx == next,
            final(self).mac == old(self).mac,
            final(self).wf(),
            r == spec_boundary(next),
    {
        self.next_rx = next;
        boundary_for(next)
    }
}

/// The network card the kernel drives, if any.
#[derive(Clone, Copy, Debug, PartialEq, Eq)]
pub enum NetworkDevice {
    Unavailable,
    Virtio(VirtioNet),
    Ne2000(Ne2000),
}

impl NetworkDevice {
    pub fn new() -> (r: Self)
        ensures
            r == NetworkDevice::Unavailable,
    {
        NetworkDevice::Unavailable
    }

    /// Takes the first card that came up, preferring virtio; reports
    /// whether there was one. Nothing changes when neither came up.
    pub fn discover(&mut self, virtio: Option<VirtioNet>, ne2000: Option<Ne2000>) -> (r: bool)
        ensures
            r == (virtio is Some || ne2000 is Some),
            virtio matches Some(v) ==> *final(self) == NetworkDevice::Virtio(v),
            virtio is None && ne2000 is Some ==> *final(self) == NetworkDevice::Ne2000(ne2000->0),
            virtio is None && ne2000 is None ==> *final(self) == *old(self),
    {
        if let Some(v) = virtio {
            *self = NetworkDevice::Virtio(v);
            return true;
        }
        if let Some(n) = ne2000 {
            *self = NetworkDevice::Ne2000(n);
            return true;
        }
        false
    }

    pub fn mac(&self) -> (r: [u8; 6])
        ensures
            r@ == match *self {
                NetworkDevice::Virtio(v) => v.mac@,
                NetworkDevice::Ne2000(n) => n.mac@,
                NetworkDevice::Unavailable => seq![0u8, 0u8, 0u8, 0u8, 0u8, 0u8],
            },
    {
        match self {
            NetworkDevice::Virtio(v) => v.mac,
            NetworkDevice::Ne2000(n) => n.mac,
            NetworkDevice::Unavailable => {
                let r = [0u8; 6];
                assert(r@ =~= seq![0u8, 0u8, 0u8, 0u8, 0u8, 0u8]);
                r
            },
        }
    }

    pub fn driver_name(&self) -> (r: &'static str)
        ensures
            r@ == match *self {
                NetworkDevice::Virtio(_) => "virtio-net-pci"@,
                NetworkDevice::Ne2000(_) => "ne2000-pio-legacy-fallback"@,
                NetworkDevice::Unavailable => "unavailable"@,
            },
    {
        match self {
            NetworkDevice::Virtio(_) => "virtio-net-pci",
            NetworkDevice::Ne2000(_) => "ne2000-pio-legacy-fallback",
            NetworkDevice::Unavailable => "unavailable",
        }
    }

    pub fn transport_name(&self) -> (r: &'static str)
        ensures
            r@ == match *self {
                NetworkDevice::Virtio(_) => "modern-pci"@,
                NetworkDevice::Ne2000(_) => "legacy-pio"@,
                NetworkDevice::Unavailable => "none"@,
            },
    {
        match self {
            NetworkDevice::Virtio(_) => "modern-pci",
            NetworkDevice::Ne2000(_) => "legacy-pio",
            NetworkDevice::Unavailable => "none",
        }
    }

    /// How many receive buffers the driver keeps offered.
    pub fn receive_buffer_count(&self) -> (r: usize)
        ensures
            r == match *self {
                NetworkDevice::Virtio(_) => VIRTQUEUE_SIZE,
                NetworkDevice::Ne2000(_) => 1,
                NetworkDevice::Unavailable => 0,
            },
    {
        match self {
            NetworkDevice::Virtio(_) => VIRTQUEUE_SIZE,
            NetworkDevice::Ne2000(_) => 1,
            NetworkDevice::Unavailable => 0,
        }
    }
}

} // verus!
