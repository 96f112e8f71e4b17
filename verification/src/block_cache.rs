//! The write-back sector cache in front of the storage device: a few
//! sectors held in memory, written back when evicted or flushed, the least
//! recently used one evicted first.
use vstd::prelude::*;
use crate::storage::{checksum, fnv, Partition, StorageError, RECORD_COMMITTED, SECTOR_BYTES, SLOT_SECTORS};

verus! {

/// How many sectors the cache holds.
pub const CACHE_ENTRIES: usize = 8;

/// A device of 512-byte sectors addressed by number.
pub trait SectorDevice {
    /// What sector `lba` holds.
    spec fn sector(&self, lba: u32) -> Seq<u8>;

    /// Reads a sector; the device's contents stay as they were, and a
    /// failed read leaves the buffer untouched.
    fn read_sector(&mut self, lba: u32, output: &mut [u8; 512]) -> (r: Result<(), StorageError>)
        ensures
            forall|l: u32| #[trigger] final(self).sector(l) == old(self).sector(l),
            r is Ok ==> final(output)@ == old(self).sector(lba),
            r is Err ==> final(output)@ == old(output)@,
    ;

    /// Writes a sector. A failed write may have reached that sector, and
    /// no other.
    fn write_sector(&mut self, lba: u32, data: &[u8; 512]) -> (r: Result<(), StorageError>)
        ensures
            r is Ok ==> final(self).sector(lba) == data@,
            forall|l: u32| l != lba ==> #[trigger] final(self).sector(l) == old(self).sector(l),
    ;

    /// Waits until what was written is durable; the contents stay as they
    /// were.
    fn flush(&mut self) -> (r: Result<(), StorageError>)
        ensures
            forall|l: u32| #[trigger] final(self).sector(l) == old(self).sector(l),
    ;
}

/// A device held in memory, one array per sector; sectors past its end
/// cannot be read or written.
pub struct MemoryDisk {
    pub sectors: Vec<[u8; 512]>,
}

impl SectorDevice for MemoryDisk {
    open spec fn sector(&self, lba: u32) -> Seq<u8> {
        if lba < self.sectors@.len() {
            self.sectors@[lba as int]@
        } else {
            Seq::new(512, |i: int| 0u8)
        }
    }

    fn read_sector(&mut self, lba: u32, output: &mut [u8; 512]) -> (r: Result<(), StorageError>) {
        if lba as usize >= self.sectors.len() {
            return Err(StorageError::Device);
        }
        *output = self.sectors[lba as usize];
        Ok(())
    }

    fn write_sector(&mut self, lba: u32, data: &[u8; 512]) -> (r: Result<(), StorageError>) {
        if lba as usize >= self.sectors.len() {
            return Err(StorageError::Device);
        }
        self.sectors.set(lba as usize, *data);
        Ok(())
    }

    fn flush(&mut self) -> (r: Result<(), StorageError>) {
        Ok(())
    }
}

/// One cached sector.
#[derive(Clone, Copy)]
pub struct CacheEntry {
    pub lba: u32,
    pub data: [u8; 512],
    pub age: u64,
    pub valid: bool,
    pub dirty: bool,
}

impl CacheEntry {
    pub fn empty() -> (r: Self)
        ensures
            !r.valid && !r.dirty && r.lba == 0 && r.age == 0,
            r.data@ == Seq::new(512, |i: int| 0u8),
    {
        let r = CacheEntry { lba: 0, data: [0u8; 512], age: 0, valid: false, dirty: false };
        assert(r.data@ =~= Seq::new(512, |i: int| 0u8));
        r
    }
}

/// Entry `i` holds sector `lba`.
pub open spec fn holds(entries: Seq<CacheEntry>, i: int, lba: u32) -> bool {
    0 <= i < entries.len() && entries[i].valid && entries[i].lba == lba
}

/// What sector `lba` reads as through the cache: the entry that holds
/// it, else the device.
pub open spec fn sector_view<D: SectorDevice>(entries: Seq<CacheEntry>, disk: D, lba: u32) -> Seq<u8> {
    if exists|i: int| holds(entries, i, lba) {
        entries[choose|i: int| holds(entries, i, lba)].data@
    } else {
        disk.sector(lba)
    }
}

/// Each sector is held by one entry at most.
pub open spec fn entries_wf(entries: Seq<CacheEntry>) -> bool {
    &&& entries.len() == CACHE_ENTRIES
    &&& forall|i: int, j: int|
        0 <= i < entries.len() && 0 <= j < entries.len() && entries[i].valid && entries[j].valid
            && entries[i].lba == entries[j].lba ==> i == j
}

/// Every clean entry holds what the device holds.
pub open spec fn entries_consistent<D: SectorDevice>(entries: Seq<CacheEntry>, disk: D) -> bool {
    forall|i: int|
        0 <= i < entries.len() && entries[i].valid && !entries[i].dirty ==> #[trigger] entries[i].data@
            == disk.sector(entries[i].lba)
}

/// The entry to evict: the first free one, else the first of those used
/// least recently.
pub open spec fn is_replacement(entries: Seq<CacheEntry>, r: int) -> bool {
    &&& 0 <= r < entries.len()
    &&& if exists|i: int| 0 <= i < entries.len() && !entries[i].valid {
        !entries[r].valid && forall|j: int| 0 <= j < r ==> entries[j].valid
    } else {
        &&& forall|j: int| 0 <= j < entries.len() ==> entries[r].age <= #[trigger] entries[j].age
        &&& forall|j: int| 0 <= j < r ==> entries[r].age < #[trigger] entries[j].age
    }
}

pub open spec fn sat_inc(v: u64) -> u64 {
    if v == u64::MAX { v } else { (v + 1) as u64 }
}

pub struct BlockCache {
    pub entries: Vec<CacheEntry>,
    pub clock: u64,
    pub hits: u64,
    pub misses: u64,
    pub writebacks: u64,
}

impl BlockCache {
    pub open spec fn wf(&self) -> bool {
        entries_wf(self.entries@)
    }

    pub open spec fn consistent<D: SectorDevice>(&self, disk: D) -> bool {
        entries_consistent(self.entries@, disk)
    }

    pub open spec fn view_sector<D: SectorDevice>(&self, disk: D, lba: u32) -> Seq<u8> {
        sector_view(self.entries@, disk, lba)
    }

    pub fn new() -> (r: Self)
        ensures
            r.wf(),
            r.clock == 0 && r.hits == 0 && r.misses == 0 && r.writebacks == 0,
            forall|i: int| 0 <= i < CACHE_ENTRIES ==> !(#[trigger] r.entries@[i]).valid,
    {
        let mut entries: Vec<CacheEntry> = Vec::new();
        while entries.len() < CACHE_ENTRIES
            invariant
                entries@.len() <= CACHE_ENTRIES,
                forall|i: int| 0 <= i < entries@.len() ==> !(#[trigger] entries@[i]).valid,
            decreases CACHE_ENTRIES - entries@.len(),
        {
            entries.push(CacheEntry::empty());
        }
        BlockCache { entries, clock: 0, hits: 0, misses: 0, writebacks: 0 }
    }

    /// The entry that holds `lba`, if one does.
    fn position(&self, lba: u32) -> (r: Option<usize>)
        requires
            self.wf(),
        ensures
            r matches Some(i) ==> holds(self.entries@, i as int, lba),
            r is None ==> !exists|i: int| holds(self.entries@, i, lba),
    {
        let mut i: usize = 0;
        while i < self.entries.len()
            invariant
                i <= self.entries@.len(),
                forall|j: int| 0 <= j < i ==> !holds(self.entries@, j, lba),
            decreases self.entries@.len() - i,
        {
            if self.entries[i].valid && self.entries[i].lba == lba {
                return Some(i);
            }
            i += 1;
        }
        None
    }

    /// The entry to evict for a sector that is not cached.
    pub fn replacement_index(&self) -> (r: usize)
        requires
            self.wf(),
        ensures
            is_replacement(self.entries@, r as int),
    {
        let mut i: usize = 0;
        while i < self.entries.len()
            invariant
                i <= self.entries@.len(),
                forall|j: int| 0 <= j < i ==> self.entries@[j].valid,
            decreases self.entries@.len() - i,
        {
            if !self.entries[i].valid {
                return i;
            }
            i += 1;
        }
        let mut best: usize = 0;
        let mut k: usize = 1;
        while k < self.entries.len()
            invariant
                self.wf(),
                1 <= k <= self.entries@.len(),
                best < k,
                forall|j: int| 0 <= j < k ==> self.entries@[best as int].age <= #[trigger] self.entries@[j].age,
                forall|j: int| 0 <= j < best ==> self.entries@[best as int].age < #[trigger] self.entries@[j].age,
            decreases self.entries@.len() - k,
        {
            if self.entries[k].age < self.entries[best].age {
                best = k;
            }
            k += 1;
        }
        best
    }

    /// Writes entry `index` back to the device if it holds changes.
    fn writeback<D: SectorDevice>(&mut self, disk: &mut D, index: usize) -> (r: Result<(), StorageError>)
        requires
            old(self).wf(),
            index < old(self).entries@.len(),
        ensures
            final(self).wf(),
            final(self).clock == old(self).clock,
            final(self).hits == old(self).hits,
            final(self).misses == old(self).misses,
            r is Ok && old(self).entries@[index as int].valid && old(self).entries@[index as int].dirty
                ==> final(self).writebacks == sat_inc(old(self).writebacks),
            !(r is Ok && old(self).entries@[index as int].valid && old(self).entries@[index as int].dirty)
                ==> final(self).writebacks == old(self).writebacks,
            r is Ok ==> !final(self).entries@[index as int].dirty || !final(self).entries@[index as int].valid,
            final(self).entries@.len() == old(self).entries@.len(),
            forall|i: int|
                0 <= i < old(self).entries@.len() && i != index ==> #[trigger] final(self).entries@[i]
                    == old(self).entries@[i],
            final(self).entries@[index as int].lba == old(self).entries@[index as int].lba,
            final(self).entries@[index as int].data == old(self).entries@[index as int].data,
            final(self).entries@[index as int].age == old(self).entries@[index as int].age,
            final(self).entries@[index as int].valid == old(self).entries@[index as int].valid,
            r is Err ==> final(self).entries@[index as int] == old(self).entries@[index as int],
            !(old(self).entries@[index as int].valid && old(self).entries@[index as int].dirty) ==> r is Ok
                && *final(disk) == *old(disk) && final(self).entries@ == old(self).entries@,
            old(self).entries@[index as int].valid && old(self).entries@[index as int].dirty ==> {
                &&& (r is Ok ==> final(disk).sector(old(self).entries@[index as int].lba)
                    == old(self).entries@[index as int].data@)
                &&& forall|l: u32|
                    l != old(self).entries@[index as int].lba ==> #[trigger] final(disk).sector(l)
                        == old(disk).sector(l)
            },
    {
        let entry = self.entries[index];
        if entry.valid && entry.dirty {
            disk.write_sector(entry.lba, &entry.data)?;
            let mut e = entry;
            e.dirty = false;
            self.entries.set(index, e);
            self.writebacks = if self.writebacks == u64::MAX { u64::MAX } else { self.writebacks + 1 };
        }
        Ok(())
    }

    /// Reads sector `lba` through the cache. A miss evicts an entry,
    /// writing it back first if it holds changes.
    pub fn read<D: SectorDevice>(&mut self, disk: &mut D, lba: u32, output: &mut [u8; 512]) -> (r: Result<(), StorageError>)
        requires
            old(self).wf(),
        ensures
            final(self).wf(),
            final(self).clock == sat_inc(old(self).clock),
            r is Ok ==> final(output)@ == old(self).view_sector(*old(disk), lba),
            r is Err ==> final(output)@ == old(output)@,
            old(self).consistent(*old(disk)) ==> final(self).consistent(*final(disk)),
            old(self).consistent(*old(disk)) ==> forall|l: u32|
                #[trigger] final(self).view_sector(*final(disk), l) == old(self).view_sector(*old(disk), l),
            (exists|i: int| holds(old(self).entries@, i, lba)) ==> {
                &&& r is Ok
                &&& final(self).hits == sat_inc(old(self).hits)
                &&& final(self).misses == old(self).misses
                &&& final(self).writebacks == old(self).writebacks
                &&& *final(disk) == *old(disk)
            },
            !(exists|i: int| holds(old(self).entries@, i, lba)) ==> {
                &&& final(self).hits == old(self).hits
                &&& final(self).misses == sat_inc(old(self).misses)
            },
    {
        self.clock = if self.clock == u64::MAX { u64::MAX } else { self.clock + 1 };
        if let Some(index) = self.position(lba) {
            self.hits = if self.hits == u64::MAX { u64::MAX } else { self.hits + 1 };
            let mut e = self.entries[index];
            e.age = self.clock;
            self.entries.set(index, e);
            *output = e.data;
            proof {
                lemma_view_held(old(self).entries@, *old(disk), index as int, lba);
                lemma_touch_keeps_view(old(self).entries@, self.entries@, *old(disk), index as int);
            }
            return Ok(());
        }
        self.misses = if self.misses == u64::MAX { u64::MAX } else { self.misses + 1 };
        let index = self.replacement_index();
        let ghost before = self.entries@;
        let ghost disk0 = *disk;
        let written = self.writeback(disk, index);
        proof {
            lemma_writeback_keeps_view(before, self.entries@, disk0, *disk, index as int);
        }
        if let Err(e) = written {
            return Err(e);
        }
        let ghost after_wb = self.entries@;
        let ghost disk1 = *disk;
        let mut buf = self.entries[index].data;
        let fetched = disk.read_sector(lba, &mut buf);
        proof {
            assert forall|l: u32| #[trigger] sector_view(after_wb, *disk, l) == sector_view(after_wb, disk1, l) by {}
        }
        if let Err(e) = fetched {
            return Err(e);
        }
        let mut e = self.entries[index];
        e.lba = lba;
        e.age = self.clock;
        e.valid = true;
        e.dirty = false;
        e.data = buf;
        self.entries.set(index, e);
        *output = buf;
        proof {
            assert(self.entries@ == after_wb.update(index as int, e));
            lemma_fill_keeps_view(before, after_wb, self.entries@, disk0, disk1, *disk, index as int, lba);
        }
        Ok(())
    }
}


impl BlockCache {
    /// Writes sector `lba` into the cache, where it stays until evicted
    /// or flushed. A miss evicts an entry, writing it back first if it
    /// holds changes.
    pub fn write<D: SectorDevice>(&mut self, disk: &mut D, lba: u32, data: &[u8; 512]) -> (r: Result<(), StorageError>)
        requires
            old(self).wf(),
        ensures
            final(self).wf(),
            final(self).clock == sat_inc(old(self).clock),
            old(self).consistent(*old(disk)) ==> final(self).consistent(*final(disk)),
            old(self).consistent(*old(disk)) && r is Ok ==> forall|l: u32|
                #[trigger] final(self).view_sector(*final(disk), l) == if l == lba {
                    data@
                } else {
                    old(self).view_sector(*old(disk), l)
                },
            old(self).consistent(*old(disk)) && r is Err ==> forall|l: u32|
                #[trigger] final(self).view_sector(*final(disk), l) == old(self).view_sector(*old(disk), l),
            (exists|i: int| holds(old(self).entries@, i, lba)) ==> {
                &&& r is Ok
                &&& final(self).hits == sat_inc(old(self).hits)
                &&& final(self).misses == old(self).misses
                &&& final(self).writebacks == old(self).writebacks
                &&& *final(disk) == *old(disk)
            },
            !(exists|i: int| holds(old(self).entries@, i, lba)) ==> {
                &&& final(self).hits == old(self).hits
                &&& final(self).misses == sat_inc(old(self).misses)
            },
    {
        self.clock = if self.clock == u64::MAX { u64::MAX } else { self.clock + 1 };
        let ghost before = self.entries@;
        let ghost disk0 = *disk;
        let index = match self.position(lba) {
            Some(index) => {
                self.hits = if self.hits == u64::MAX { u64::MAX } else { self.hits + 1 };
                proof {
                    assert forall|l: u32| #[trigger] sector_view(self.entries@, *disk, l) == sector_view(
                        before,
                        disk0,
                        l,
                    ) by {}
                }
                index
            },
            None => {
                self.misses = if self.misses == u64::MAX { u64::MAX } else { self.misses + 1 };
                let index = self.replacement_index();
                let written = self.writeback(disk, index);
                proof {
                    lemma_writeback_keeps_view(before, self.entries@, disk0, *disk, index as int);
                }
                if let Err(e) = written {
                    return Err(e);
                }
                index
            },
        };
        let ghost after_wb = self.entries@;
        let mut e = self.entries[index];
        e.lba = lba;
        e.data = *data;
        e.age = self.clock;
        e.valid = true;
        e.dirty = true;
        self.entries.set(index, e);
        proof {
            assert(self.entries@ == after_wb.update(index as int, e));
            assert forall|i: int| i != index implies !holds(after_wb, i, lba) by {
                if holds(after_wb, i, lba) {
                    assert(holds(before, i, lba));
                }
            }
            if entries_consistent(before, disk0) {
                lemma_store_view(after_wb, self.entries@, *disk, index as int, lba);
            } else {
                lemma_store_wf(after_wb, self.entries@, index as int, lba);
            }
        }
        Ok(())
    }

    /// Writes every entry that holds changes back to the device, then asks
    /// the device to make them durable. Stops at the first failure.
    pub fn flush<D: SectorDevice>(&mut self, disk: &mut D) -> (r: Result<(), StorageError>)
        requires
            old(self).wf(),
        ensures
            final(self).wf(),
            final(self).clock == old(self).clock,
            final(self).hits == old(self).hits,
            final(self).misses == old(self).misses,
            old(self).consistent(*old(disk)) ==> final(self).consistent(*final(disk)),
            old(self).consistent(*old(disk)) ==> forall|l: u32|
                #[trigger] final(self).view_sector(*final(disk), l) == old(self).view_sector(*old(disk), l),
            old(self).consistent(*old(disk)) && r is Ok ==> forall|l: u32|
                #[trigger] final(disk).sector(l) == old(self).view_sector(*old(disk), l),
            r is Ok ==> forall|i: int|
                0 <= i < CACHE_ENTRIES ==> !(#[trigger] final(self).entries@[i]).valid || !final(self).entries@[i].dirty,
    {
        let ghost entries0 = self.entries@;
        let ghost disk0 = *disk;
        let mut index: usize = 0;
        while index < self.entries.len()
            invariant
                self.wf(),
                entries0 == old(self).entries@,
                disk0 == *old(disk),
                index <= self.entries@.len(),
                self.clock == old(self).clock,
                self.hits == old(self).hits,
                self.misses == old(self).misses,
                entries_consistent(entries0, disk0) ==> entries_consistent(self.entries@, *disk),
                entries_consistent(entries0, disk0) ==> forall|l: u32|
                    #[trigger] sector_view(self.entries@, *disk, l) == sector_view(entries0, disk0, l),
                forall|j: int| 0 <= j < index ==> !(#[trigger] self.entries@[j]).valid || !self.entries@[j].dirty,
            decreases self.entries@.len() - index,
        {
            let ghost before = self.entries@;
            let ghost disk1 = *disk;
            let written = self.writeback(disk, index);
            proof {
                lemma_writeback_keeps_view(before, self.entries@, disk1, *disk, index as int);
                if entries_consistent(entries0, disk0) {
                    assert forall|l: u32| #[trigger] sector_view(self.entries@, *disk, l) == sector_view(
                        entries0,
                        disk0,
                        l,
                    ) by {
                        assert(sector_view(before, disk1, l) == sector_view(entries0, disk0, l));
                    }
                }
            }
            if let Err(e) = written {
                return Err(e);
            }
            index += 1;
        }
        let ghost entries1 = self.entries@;
        let ghost disk1 = *disk;
        let flushed = disk.flush();
        proof {
            assert forall|l: u32| #[trigger] sector_view(entries1, *disk, l) == sector_view(entries1, disk1, l) by {}
            if entries_consistent(entries0, disk0) {
                assert forall|i: int|
                    0 <= i < entries1.len() && entries1[i].valid && !entries1[i].dirty implies #[trigger] entries1[i].data@
                        == disk.sector(entries1[i].lba) by {
                    assert(disk.sector(entries1[i].lba) == disk1.sector(entries1[i].lba));
                }
            }
        }
        if let Err(e) = flushed {
            return Err(e);
        }
        proof {
            if entries_consistent(entries0, disk0) {
                assert forall|l: u32| #[trigger] disk.sector(l) == sector_view(entries0, disk0, l) by {
                    assert(sector_view(entries1, disk1, l) == sector_view(entries0, disk0, l));
                    assert(sector_view(entries1, *disk, l) == sector_view(entries1, disk1, l));
                    if exists|i: int| holds(entries1, i, l) {
                        let i = choose|i: int| holds(entries1, i, l);
                        assert(holds(entries1, i, l));
                        assert(!entries1[i].dirty);
                        lemma_view_held(entries1, *disk, i, l);
                    }
                }
            }
        }
        Ok(())
    }
}

/// What was written through the cache is what the sector reads as, in the
/// cache and, once the cache is flushed, on the device: here, a write of
/// `data` to `lba` (from `c0` on `d0` to `c1` on `d1`), then a read of
/// `lba` that gave `out` (to `c2` on `d2`), then a flush that left the
/// device as `d3`.
pub proof fn lemma_write_read_flush<D: SectorDevice>(
    c0: BlockCache, d0: D, c1: BlockCache, d1: D, c2: BlockCache, d2: D, d3: D,
    lba: u32, data: Seq<u8>, out: Seq<u8>,
)
    requires
        c0.consistent(d0),
        c1.consistent(d1),
        forall|l: u32| #[trigger] c1.view_sector(d1, l) == if l == lba { data } else { c0.view_sector(d0, l) },
        out == c1.view_sector(d1, lba),
        c2.consistent(d2),
        forall|l: u32| #[trigger] c2.view_sector(d2, l) == c1.view_sector(d1, l),
        forall|l: u32| #[trigger] d3.sector(l) == c2.view_sector(d2, l),
    ensures
        out == data,
        d3.sector(lba) == data,
        forall|l: u32| l != lba ==> #[trigger] d3.sector(l) == c0.view_sector(d0, l),
{
    assert(c1.view_sector(d1, lba) == data);
    assert(d3.sector(lba) == c2.view_sector(d2, lba));
    assert forall|l: u32| l != lba implies #[trigger] d3.sector(l) == c0.view_sector(d0, l) by {
        assert(d3.sector(l) == c2.view_sector(d2, l));
        assert(c1.view_sector(d1, l) == c0.view_sector(d0, l));
    }
}

/// Storing a sector in entry `index` keeps each sector held once.
proof fn lemma_store_wf(a: Seq<CacheEntry>, b: Seq<CacheEntry>, index: int, lba: u32)
    requires
        entries_wf(a),
        0 <= index < a.len(),
        forall|i: int| i != index ==> !holds(a, i, lba),
        b == a.update(index, b[index]),
        b[index].lba == lba && b[index].valid,
    ensures
        entries_wf(b),
{
    assert forall|i: int, j: int|
        0 <= i < b.len() && 0 <= j < b.len() && b[i].valid && b[j].valid && b[i].lba == b[j].lba implies i
        == j by {
        if i != index && j != index {
            assert(a[i].valid && a[j].valid);
        } else if i == index && j != index {
            assert(holds(a, j, lba));
        } else if j == index && i != index {
            assert(holds(a, i, lba));
        }
    }
}

/// Storing changed data for sector `lba` in entry `index`, which held
/// that sector or no changes, makes `lba` read as the data and changes
/// what no other sector reads as.
proof fn lemma_store_view<D: SectorDevice>(a: Seq<CacheEntry>, b: Seq<CacheEntry>, disk: D, index: int, lba: u32)
    requires
        entries_wf(a),
        entries_consistent(a, disk),
        0 <= index < a.len(),
        forall|i: int| i != index ==> !holds(a, i, lba),
        holds(a, index, lba) || !a[index].valid || !a[index].dirty,
        b == a.update(index, b[index]),
        b[index].lba == lba && b[index].valid && b[index].dirty,
    ensures
        entries_wf(b),
        entries_consistent(b, disk),
        forall|l: u32| #[trigger] sector_view(b, disk, l) == if l == lba {
            b[index].data@
        } else {
            sector_view(a, disk, l)
        },
{
    lemma_store_wf(a, b, index, lba);
    let ev = a[index].lba;
    assert forall|l: u32| #[trigger] sector_view(b, disk, l) == if l == lba {
        b[index].data@
    } else {
        sector_view(a, disk, l)
    } by {
        if l == lba {
            lemma_view_held(b, disk, index, l);
        } else if a[index].valid && l == ev {
            assert(!exists|i: int| holds(b, i, l)) by {
                if exists|i: int| holds(b, i, l) {
                    let i = choose|i: int| holds(b, i, l);
                    assert(holds(a, i, l));
                    assert(holds(a, index, l));
                }
            }
            lemma_view_held(a, disk, index, l);
        } else if exists|i: int| holds(a, i, l) {
            let i = choose|i: int| holds(a, i, l);
            assert(i != index);
            assert(holds(b, i, l));
            lemma_view_held(a, disk, i, l);
            lemma_view_held(b, disk, i, l);
        } else {
            assert(!exists|i: int| holds(b, i, l)) by {
                if exists|i: int| holds(b, i, l) {
                    let i = choose|i: int| holds(b, i, l);
                    assert(i != index);
                    assert(holds(a, i, l));
                }
            }
        }
    }
}

/// Writing an entry back, or failing to, changes what no sector reads as,
/// and keeps the clean entries in step with the device.
proof fn lemma_writeback_keeps_view<D: SectorDevice>(
    before: Seq<CacheEntry>,
    after: Seq<CacheEntry>,
    disk0: D,
    disk1: D,
    index: int,
)
    requires
        entries_wf(before),
        0 <= index < before.len(),
        after.len() == before.len(),
        forall|i: int| 0 <= i < before.len() && i != index ==> after[i] == before[i],
        after[index].lba == before[index].lba && after[index].data == before[index].data
            && after[index].valid == before[index].valid,
        !(before[index].valid && before[index].dirty) ==> disk1 == disk0 && after == before,
        before[index].valid && before[index].dirty ==> {
            &&& (!after[index].dirty ==> disk1.sector(before[index].lba) == before[index].data@)
            &&& forall|l: u32| l != before[index].lba ==> #[trigger] disk1.sector(l) == disk0.sector(l)
        },
    ensures
        entries_wf(after),
        entries_consistent(before, disk0) ==> entries_consistent(after, disk1),
        entries_consistent(before, disk0) ==> forall|l: u32|
            #[trigger] sector_view(after, disk1, l) == sector_view(before, disk0, l),
{
    let ev = before[index].lba;
    assert forall|i: int| 0 <= i < before.len() implies after[i].lba == before[i].lba && after[i].data
        == before[i].data && after[i].valid == before[i].valid by {}
    assert forall|i: int, j: int|
        0 <= i < after.len() && 0 <= j < after.len() && after[i].valid && after[j].valid && after[i].lba
            == after[j].lba implies i == j by {
        assert(before[i].valid && before[j].valid);
    }
    if before[index].valid && before[index].dirty && entries_consistent(before, disk0) {
        assert forall|i: int|
            0 <= i < after.len() && after[i].valid && !after[i].dirty implies #[trigger] after[i].data@
                == disk1.sector(after[i].lba) by {
            if i != index {
                assert(before[i].valid && !before[i].dirty);
                assert(before[i].lba != ev);
            }
        }
        assert forall|l: u32| #[trigger] sector_view(after, disk1, l) == sector_view(before, disk0, l) by {
            if l == ev {
                assert(holds(before, index, l) && holds(after, index, l));
                lemma_view_held(before, disk0, index, l);
                lemma_view_held(after, disk1, index, l);
            } else if exists|i: int| holds(before, i, l) {
                let i = choose|i: int| holds(before, i, l);
                assert(holds(after, i, l));
                lemma_view_held(before, disk0, i, l);
                lemma_view_held(after, disk1, i, l);
            } else {
                assert(!exists|i: int| holds(after, i, l)) by {
                    if exists|i: int| holds(after, i, l) {
                        let i = choose|i: int| holds(after, i, l);
                        assert(holds(before, i, l));
                    }
                }
            }
        }
    }
}

/// The entry that holds a sector gives what it reads as.
proof fn lemma_view_held<D: SectorDevice>(entries: Seq<CacheEntry>, disk: D, i: int, lba: u32)
    requires
        entries_wf(entries),
        holds(entries, i, lba),
    ensures
        sector_view(entries, disk, lba) == entries[i].data@,
{
    let k = choose|k: int| holds(entries, k, lba);
    assert(holds(entries, k, lba));
}

/// Changing an entry's age changes what no sector reads as.
proof fn lemma_touch_keeps_view<D: SectorDevice>(a: Seq<CacheEntry>, b: Seq<CacheEntry>, disk: D, index: int)
    requires
        entries_wf(a),
        0 <= index < a.len(),
        b.len() == a.len(),
        forall|i: int| 0 <= i < a.len() && i != index ==> b[i] == a[i],
        b[index].lba == a[index].lba && b[index].data == a[index].data && b[index].valid == a[index].valid
            && b[index].dirty == a[index].dirty,
    ensures
        entries_wf(b),
        entries_consistent(a, disk) ==> entries_consistent(b, disk),
        forall|l: u32| #[trigger] sector_view(b, disk, l) == sector_view(a, disk, l),
{
    assert forall|i: int| 0 <= i < a.len() implies b[i].lba == a[i].lba && b[i].data == a[i].data
        && b[i].valid == a[i].valid && b[i].dirty == a[i].dirty by {}
    assert forall|l: u32| #[trigger] sector_view(b, disk, l) == sector_view(a, disk, l) by {
        if exists|i: int| holds(a, i, l) {
            let i = choose|i: int| holds(a, i, l);
            assert(holds(b, i, l));
            lemma_view_held(a, disk, i, l);
            lemma_view_held(b, disk, i, l);
        } else {
            assert(!exists|i: int| holds(b, i, l)) by {
                if exists|i: int| holds(b, i, l) {
                    let i = choose|i: int| holds(b, i, l);
                    assert(holds(a, i, l));
                }
            }
        }
    }
}

/// Evicting entry `index` (written back first where it held changes) and
/// filling it with sector `lba` read from the device changes what no
/// sector reads as, and keeps the clean entries in step with the device.
proof fn lemma_fill_keeps_view<D: SectorDevice>(
    before: Seq<CacheEntry>,
    after_wb: Seq<CacheEntry>,
    filled: Seq<CacheEntry>,
    disk0: D,
    disk1: D,
    disk2: D,
    index: int,
    lba: u32,
)
    requires
        entries_wf(before),
        0 <= index < before.len(),
        !exists|i: int| holds(before, i, lba),
        after_wb.len() == before.len(),
        forall|i: int| 0 <= i < before.len() && i != index ==> after_wb[i] == before[i],
        after_wb[index].lba == before[index].lba && after_wb[index].data == before[index].data
            && after_wb[index].valid == before[index].valid,
        !after_wb[index].dirty || !after_wb[index].valid,
        !(before[index].valid && before[index].dirty) ==> disk1 == disk0 && after_wb == before,
        before[index].valid && before[index].dirty ==> {
            &&& disk1.sector(before[index].lba) == before[index].data@
            &&& forall|l: u32| l != before[index].lba ==> #[trigger] disk1.sector(l) == disk0.sector(l)
        },
        forall|l: u32| #[trigger] disk2.sector(l) == disk1.sector(l),
        filled.len() == before.len(),
        forall|i: int| 0 <= i < before.len() && i != index ==> filled[i] == before[i],
        filled[index].lba == lba && filled[index].valid && !filled[index].dirty,
        filled[index].data@ == disk1.sector(lba),
    ensures
        entries_wf(filled),
        entries_consistent(before, disk0) ==> entries_consistent(filled, disk2),
        entries_consistent(before, disk0) ==> forall|l: u32|
            #[trigger] sector_view(filled, disk2, l) == sector_view(before, disk0, l),
        sector_view(before, disk0, lba) == disk2.sector(lba),
{
    let ev = before[index].lba;
    let was_valid = before[index].valid;
    // The device changed at most at the evicted sector.
    assert forall|l: u32| l != ev || !(was_valid && before[index].dirty) implies #[trigger] disk2.sector(l)
        == disk0.sector(l) by {}
    assert forall|i: int, j: int|
        0 <= i < filled.len() && 0 <= j < filled.len() && filled[i].valid && filled[j].valid && filled[i].lba
            == filled[j].lba implies i == j by {
        if i != index && j != index {
            assert(before[i].valid && before[j].valid);
        } else if i == index && j != index {
            assert(holds(before, j, lba));
        } else if j == index && i != index {
            assert(holds(before, i, lba));
        }
    }
    assert(entries_wf(filled));
    if was_valid {
        assert(ev != lba) by {
            if ev == lba {
                assert(holds(before, index, lba));
            }
        }
    }
    assert(disk2.sector(lba) == disk0.sector(lba));
    if entries_consistent(before, disk0) {
        assert forall|i: int|
            0 <= i < filled.len() && filled[i].valid && !filled[i].dirty implies #[trigger] filled[i].data@
                == disk2.sector(filled[i].lba) by {
            if i != index {
                assert(before[i].valid);
                if was_valid && before[index].dirty {
                    assert(before[i].lba != ev);
                }
            }
        }
        assert forall|l: u32| #[trigger] sector_view(filled, disk2, l) == sector_view(before, disk0, l) by {
            if l == lba {
                lemma_view_held(filled, disk2, index, l);
            } else if was_valid && l == ev {
                // No entry holds the evicted sector any more.
                assert(!exists|i: int| holds(filled, i, l)) by {
                    if exists|i: int| holds(filled, i, l) {
                        let i = choose|i: int| holds(filled, i, l);
                        assert(holds(before, i, l));
                        assert(holds(before, index, l));
                    }
                }
                lemma_view_held(before, disk0, index, l);
            } else if exists|i: int| holds(before, i, l) {
                let i = choose|i: int| holds(before, i, l);
                assert(i != index);
                assert(holds(filled, i, l));
                lemma_view_held(before, disk0, i, l);
                lemma_view_held(filled, disk2, i, l);
            } else {
                assert(!exists|i: int| holds(filled, i, l)) by {
                    if exists|i: int| holds(filled, i, l) {
                        let i = choose|i: int| holds(filled, i, l);
                        assert(i != index);
                        assert(holds(before, i, l));
                    }
                }
            }
        }
    }
}


/// The sector `k` of a slot image.
pub open spec fn slot_sector(image: Seq<u8>, k: int) -> Seq<u8> {
    image.subrange(k * 512, k * 512 + 512)
}

/// The bytes of `v`, least significant first.
pub open spec fn le32_bytes(v: u32) -> Seq<u8> {
    seq![(v & 0xff) as u8, ((v >> 8u32) & 0xff) as u8, ((v >> 16u32) & 0xff) as u8, ((v >> 24u32) & 0xff) as u8]
}

/// A slot image marked committed: the commit byte set, then the checksum
/// of the whole image (its own field read as zero) stored in that field.
pub open spec fn committed_image(image: Seq<u8>) -> Seq<u8> {
    let marked = image.update(7, RECORD_COMMITTED);
    let sum = fnv(marked, marked.len() as int);
    marked.subrange(0, 20) + le32_bytes(sum) + marked.subrange(24, marked.len() as int)
}

fn copy_sector(image: &[u8; 20480], k: usize) -> (r: [u8; 512])
    requires
        k < SLOT_SECTORS,
    ensures
        r@ == slot_sector(image@, k as int),
{
    let mut out = [0u8; 512];
    let mut i: usize = 0;
    while i < 512
        invariant
            k < SLOT_SECTORS,
            i <= 512,
            forall|j: int| 0 <= j < i ==> out@[j] == image@[k * 512 + j],
        decreases 512 - i,
    {
        out[i] = image[k * 512 + i];
        i += 1;
    }
    assert(out@ =~= slot_sector(image@, k as int));
    out
}

impl BlockCache {
    /// Writes a snapshot image into the slot whose first sector is `base`,
    /// in the order that keeps the previous snapshot authoritative until
    /// the last step: the first sector (still uncommitted), a flush, the
    /// other sectors, a flush, then the first sector again marked
    /// committed with its checksum, and a final flush. On success the
    /// device holds the committed image in the slot; whatever happens, no
    /// sector outside the slot changes.
    pub fn write_slot<D: SectorDevice>(&mut self, disk: &mut D, base: u32, image: &mut [u8; 20480]) -> (r: Result<(), StorageError>)
        requires
            old(self).wf(),
            old(self).consistent(*old(disk)),
            base + SLOT_SECTORS <= u32::MAX,
        ensures
            final(self).wf(),
            final(self).consistent(*final(disk)),
            forall|l: u32|
                !(base <= l < base + SLOT_SECTORS) ==> #[trigger] final(self).view_sector(*final(disk), l)
                    == old(self).view_sector(*old(disk), l),
            r is Ok ==> final(image)@ == committed_image(old(image)@),
            r is Ok ==> forall|l: u32|
                base <= l < base + SLOT_SECTORS ==> #[trigger] final(disk).sector(l) == slot_sector(
                    final(image)@,
                    l - base,
                ),
            r is Ok ==> forall|l: u32|
                !(base <= l < base + SLOT_SECTORS) ==> #[trigger] final(disk).sector(l) == old(self).view_sector(
                    *old(disk),
                    l,
                ),
    {
        let ghost d0 = *disk;
        let ghost c0 = self.entries@;
        let first = copy_sector(image, 0);
        self.write(disk, base, &first)?;
        self.flush(disk)?;
        let mut k: usize = 1;
        while k < SLOT_SECTORS as usize
            invariant
                d0 == *old(disk),
                self.wf(),
                self.consistent(*disk),
                1 <= k <= SLOT_SECTORS,
                base + SLOT_SECTORS <= u32::MAX,
                image@ == old(image)@,
                forall|l: u32|
                    !(base <= l < base + SLOT_SECTORS) ==> #[trigger] self.view_sector(*disk, l)
                        == old(self).view_sector(d0, l),
                forall|l: u32|
                    base <= l < base + k ==> #[trigger] self.view_sector(*disk, l) == slot_sector(image@, l - base),
            decreases SLOT_SECTORS - k,
        {
            let sector = copy_sector(image, k);
            self.write(disk, base + k as u32, &sector)?;
            k += 1;
        }
        self.flush(disk)?;
        let ghost before_mark = image@;
        image[7] = RECORD_COMMITTED;
        let ghost marked = image@;
        image[20] = 0;
        image[21] = 0;
        image[22] = 0;
        image[23] = 0;
        let sum = checksum(image);
        proof {
            lemma_fnv_ignores_field(image@, marked, 20480);
        }
        image[20] = (sum & 0xff) as u8;
        image[21] = ((sum >> 8) & 0xff) as u8;
        image[22] = ((sum >> 16) & 0xff) as u8;
        image[23] = ((sum >> 24) & 0xff) as u8;
        proof {
            assert(marked == old(image)@.update(7, RECORD_COMMITTED));
            assert(image@ =~= committed_image(old(image)@));
            assert forall|k: int| 1 <= k < SLOT_SECTORS implies #[trigger] slot_sector(image@, k) == slot_sector(before_mark, k) by {
                assert(slot_sector(image@, k) =~= slot_sector(before_mark, k));
            }
        }
        let header = copy_sector(image, 0);
        self.write(disk, base, &header)?;
        self.flush(disk)
    }
}

/// The checksum reads every byte but its own field.
proof fn lemma_fnv_ignores_field(a: Seq<u8>, b: Seq<u8>, n: int)
    requires
        0 <= n <= a.len(),
        a.len() == b.len(),
        forall|i: int| 0 <= i < a.len() && !(20 <= i < 24) ==> a[i] == b[i],
    ensures
        fnv(a, n) == fnv(b, n),
    decreases n,
{
    if n > 0 {
        lemma_fnv_ignores_field(a, b, n - 1);
    }
}

} // verus!

verus! {

/// The first sector of each snapshot slot, after the partition's first.
pub const SLOT_OFFSETS: [u32; 2] = [1, 41];

/// The persistent store: its partition, the sector cache in front of it,
/// the slot that holds the newest committed snapshot and that snapshot's
/// generation.
pub struct PersistentFs {
    pub partition: Option<Partition>,
    pub cache: BlockCache,
    pub active_slot: Option<usize>,
    pub generation: u64,
    pub read_only: bool,
}

/// The slot a commit writes: the one the newest snapshot is not in.
pub open spec fn spec_target(active: Option<usize>) -> int {
    match active {
        Some(s) => if s == 0 { 1 } else { 0 },
        None => 0,
    }
}

impl PersistentFs {
    /// The cache is well formed and in step with the device, and the active
    /// slot, if any, is one of the two.
    pub open spec fn wf<D: SectorDevice>(&self, disk: D) -> bool {
        &&& self.cache.wf()
        &&& self.cache.consistent(disk)
        &&& (self.active_slot matches Some(s) ==> s < 2)
    }

    pub fn available(&self) -> (r: bool)
        ensures
            r == self.partition is Some,
    {
        self.partition.is_some()
    }

    pub fn read_only(&self) -> (r: bool)
        ensures
            r == self.read_only,
    {
        self.read_only
    }

    /// Commits `image`, the encoding of the next generation's snapshot,
    /// to the slot the newest snapshot is not in, leaving that snapshot
    /// untouched. Refused without a partition, on a read-only store, or
    /// when the generation cannot grow; a device failure ends it. On success the slot holds the
    /// committed image, it becomes the active slot, and the generation
    /// grows by one. A partition read from a partition table always has
    /// room for both slots.
    pub fn commit_image<D: SectorDevice>(&mut self, disk: &mut D, image: &mut [u8; 20480]) -> (r: Result<(), StorageError>)
        requires
            old(self).wf(*old(disk)),
            old(self).partition matches Some(p) ==> p.start_lba + 1 + 2 * SLOT_SECTORS <= u32::MAX,
        ensures
            final(self).wf(*final(disk)),
            old(self).partition is None ==> r == Err::<(), StorageError>(StorageError::InvalidPartition),
            old(self).partition is Some && old(self).read_only ==> r == Err::<(), StorageError>(StorageError::Device),
            old(self).partition is Some && !old(self).read_only && old(self).generation == u64::MAX ==> r == Err::<
                (),
                StorageError,
            >(StorageError::NoSpace),
            r is Err ==> final(self).active_slot == old(self).active_slot && final(self).generation
                == old(self).generation,
            old(self).partition matches Some(p) ==> {
                let base = p.start_lba + 1 + 40 * spec_target(old(self).active_slot);
                &&& forall|l: u32|
                    !(base <= l < base + SLOT_SECTORS) ==> #[trigger] final(self).cache.view_sector(
                        *final(disk),
                        l,
                    ) == old(self).cache.view_sector(*old(disk), l)
                &&& r is Ok ==> {
                    &&& !old(self).read_only && old(self).generation < u64::MAX
                    &&& final(self).active_slot == Some(spec_target(old(self).active_slot) as usize)
                    &&& final(self).generation == old(self).generation + 1
                    &&& final(image)@ == committed_image(old(image)@)
                    &&& forall|l: u32|
                        base <= l < base + SLOT_SECTORS ==> #[trigger] final(disk).sector(l) == slot_sector(
                            final(image)@,
                            l - base,
                        )
                }
            },
            old(self).partition is Some && old(self).active_slot is Some ==> {
                let active_base = old(self).partition->0.start_lba + 1 + 40 * old(self).active_slot->0;
                &&& forall|l: u32|
                    active_base <= l < active_base + SLOT_SECTORS ==> #[trigger] final(self).cache.view_sector(
                        *final(disk),
                        l,
                    ) == old(self).cache.view_sector(*old(disk), l)
                &&& r is Ok ==> final(self).active_slot != old(self).active_slot
            },
    {
        proof {
            lemma_commit_targets_other_slot(self.active_slot);
        }
        let partition = match self.partition {
            Some(p) => p,
            None => return Err(StorageError::InvalidPartition),
        };
        if self.read_only {
            return Err(StorageError::Device);
        }
        let target: usize = match self.active_slot {
            Some(slot) => if slot == 0 { 1 } else { 0 },
            None => 0,
        };
        let generation = match self.generation.checked_add(1) {
            Some(g) => g,
            None => return Err(StorageError::NoSpace),
        };
        let base = match partition.start_lba.checked_add(SLOT_OFFSETS[target]) {
            Some(b) => b,
            None => return Err(StorageError::InvalidPartition),
        };
        let written = self.cache.write_slot(disk, base, image);
        proof {
            if self.active_slot is Some {
                let slot = self.active_slot->0;
                let active_base = partition.start_lba + 1 + 40 * slot;
                assert(slot < 2 && target != slot);
                assert(base == partition.start_lba + 1 + 40 * target);
                assert(active_base + SLOT_SECTORS <= base || base + SLOT_SECTORS <= active_base);
            }
        }
        if let Err(e) = written {
            return Err(e);
        }
        self.active_slot = Some(target);
        self.generation = generation;
        Ok(())
    }
}

/// A commit never writes the slot that holds the newest snapshot: with a
/// snapshot in slot `s`, it writes the other of the two slots; with none,
/// the first.
pub proof fn lemma_commit_targets_other_slot(active: Option<usize>)
    ensures
        0 <= spec_target(active) < 2,
        active matches Some(s) ==> (s < 2 ==> spec_target(active) != s),
        active is None ==> spec_target(active) == 0,
{
}

} // verus!
