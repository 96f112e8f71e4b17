//! The on-disk formats of persistent storage: the partition table entry
//! that holds the store, and the two checksummed snapshot slots.
use vstd::prelude::*;
use crate::wire::{le16, le32, le64, read_le16, read_le32, read_le64};

verus! {

pub const SECTOR_BYTES: usize = 512;
pub const PARTITION_TYPE_GENOS: u8 = 0x7f;
pub const PARTITION_TYPE_GENOS_READ_ONLY: u8 = 0x7e;
pub const PARTITION_ENTRY_OFFSET: usize = 446;
pub const PARTITION_ENTRY_BYTES: usize = 16;
pub const RECORD_VERSION: u16 = 3;
pub const RECORD_COMMITTED: u8 = 0xa5;
pub const RECORD_HEADER_BYTES: usize = 64;
pub const RECORD_CHECKSUM_OFFSET: usize = 20;
pub const ENTRY_HEADER_BYTES: usize = 4;
pub const SLOT_SECTORS: u32 = 40;
pub const SLOT_BYTES: usize = 20480;

#[derive(Clone, Copy, Debug, PartialEq, Eq, Structural)]
pub enum PersistentBootState {
    Created,
    Restored,
    Recovered,
    ReadOnly,
    Unavailable,
}

#[derive(Clone, Copy, Debug, PartialEq, Eq, Structural)]
pub enum StorageError {
    Device,
    InvalidPartition,
    InvalidRecord,
    NoSpace,
    Vfs,
}

#[derive(Clone, Copy, Debug, PartialEq, Eq, Structural)]
pub struct Partition {
    pub start_lba: u32,
    pub sectors: u32,
    pub read_only: bool,
}

/// What a read of one snapshot slot found.
#[derive(Clone, Copy, Debug, PartialEq, Eq, Structural)]
pub struct SlotSummary {
    pub generation: Option<u64>,
    pub blank: bool,
    pub readable: bool,
}

#[derive(Clone, Copy, Debug, PartialEq, Eq, Structural)]
pub enum EntryKind {
    File,
    Directory,
}

/// The record magic, `GFS2`.
pub open spec fn record_magic() -> Seq<u8> {
    seq![71u8, 70, 83, 50]
}

/// The partition entry `index` of a master boot record, if it holds the
/// store: the store's type, a start past sector zero and room for the
/// header sector and both slots without the end overflowing.
pub open spec fn spec_partition_entry(mbr: Seq<u8>, index: int) -> Option<Partition> {
    let offset = PARTITION_ENTRY_OFFSET + index * PARTITION_ENTRY_BYTES;
    let kind = mbr[offset + 4];
    let start = le32(mbr, offset + 8);
    let sectors = le32(mbr, offset + 12);
    if (kind == PARTITION_TYPE_GENOS || kind == PARTITION_TYPE_GENOS_READ_ONLY) && start > 0 && sectors
        >= 1 + SLOT_SECTORS * 2 && start + sectors <= u32::MAX {
        Some(Partition { start_lba: start as u32, sectors: sectors as u32, read_only: kind == PARTITION_TYPE_GENOS_READ_ONLY })
    } else {
        None
    }
}

/// The first of the four entries from `index` on that holds the store.
pub open spec fn first_partition(mbr: Seq<u8>, index: int) -> Option<Partition>
    decreases 4 - index,
{
    if index >= 4 {
        None
    } else {
        match spec_partition_entry(mbr, index) {
            Some(p) => Some(p),
            None => first_partition(mbr, index + 1),
        }
    }
}

pub open spec fn spec_parse_partition(mbr: Seq<u8>) -> Result<Partition, StorageError> {
    if mbr[510] != 0x55 || mbr[511] != 0xaa {
        Err(StorageError::InvalidPartition)
    } else {
        match first_partition(mbr, 0) {
            Some(p) => Ok(p),
            None => Err(StorageError::InvalidPartition),
        }
    }
}

/// Finds the store in a master boot record.
pub fn parse_partition(mbr: &[u8]) -> (r: Result<Partition, StorageError>)
    requires
        mbr@.len() == SECTOR_BYTES,
    ensures
        r == spec_parse_partition(mbr@),
{
    if mbr[510] != 0x55 || mbr[511] != 0xaa {
        return Err(StorageError::InvalidPartition);
    }
    let mut index: usize = 0;
    while index < 4
        invariant
            mbr@.len() == SECTOR_BYTES,
            mbr@[510] == 0x55 && mbr@[511] == 0xaa,
            index <= 4,
            first_partition(mbr@, 0) == first_partition(mbr@, index as int),
        decreases 4 - index,
    {
        let offset = PARTITION_ENTRY_OFFSET + index * PARTITION_ENTRY_BYTES;
        let kind = mbr[offset + 4];
        if kind == PARTITION_TYPE_GENOS || kind == PARTITION_TYPE_GENOS_READ_ONLY {
            let start_lba = read_le32(mbr, offset + 8);
            let sectors = read_le32(mbr, offset + 12);
            if start_lba > 0 && sectors >= 1 + SLOT_SECTORS * 2 && start_lba.checked_add(sectors).is_some() {
                assert(spec_partition_entry(mbr@, index as int) == Some(Partition { start_lba, sectors, read_only: kind == PARTITION_TYPE_GENOS_READ_ONLY }));
                return Ok(Partition { start_lba, sectors, read_only: kind == PARTITION_TYPE_GENOS_READ_ONLY });
            }
        }
        index += 1;
    }
    Err(StorageError::InvalidPartition)
}

/// The slot to restore: the one with the higher generation, the second on
/// a tie, the only valid one, or none.
pub open spec fn spec_newest_valid_slot(slots: Seq<SlotSummary>) -> Option<usize> {
    match (slots[0].generation, slots[1].generation) {
        (Some(left), Some(right)) => Some(if right > left { 1usize } else { 0usize }),
        (Some(_), None) => Some(0),
        (None, Some(_)) => Some(1),
        (None, None) => None,
    }
}

pub fn newest_valid_slot(slots: &[SlotSummary; 2]) -> (r: Option<usize>)
    ensures
        r == spec_newest_valid_slot(slots@),
{
    match (slots[0].generation, slots[1].generation) {
        (Some(left), Some(right)) => Some(if right > left { 1 } else { 0 }),
        (Some(_), None) => Some(0),
        (None, Some(_)) => Some(1),
        (None, None) => None,
    }
}

/// The slot chosen is always a valid one holding the newest generation: a
/// torn or blank slot is never preferred over a valid one.
pub proof fn lemma_newest_generation_wins(slots: Seq<SlotSummary>)
    requires
        slots.len() == 2,
    ensures
        spec_newest_valid_slot(slots) is None <==> (slots[0].generation is None && slots[1].generation is None),
        spec_newest_valid_slot(slots) matches Some(i) ==> slots[i as int].generation is Some && forall|j: int|
            0 <= j < 2 && #[trigger] slots[j].generation is Some ==> slots[j].generation->0 <= slots[i as int].generation->0,
{
}

/// FNV-1a over the first `n` bytes, the checksum field itself read as zero.
pub open spec fn fnv(bytes: Seq<u8>, n: int) -> u32
    decreases n,
{
    if n <= 0 {
        0x811c_9dc5u32
    } else {
        let i = n - 1;
        let b: u32 = if RECORD_CHECKSUM_OFFSET <= i < RECORD_CHECKSUM_OFFSET + 4 {
            0
        } else {
            bytes[i] as u32
        };
        (fnv(bytes, i) ^ b).wrapping_mul(0x0100_0193)
    }
}

pub fn checksum(bytes: &[u8]) -> (r: u32)
    ensures
        r == fnv(bytes@, bytes@.len() as int),
{
    let mut hash: u32 = 0x811c_9dc5;
    let mut index: usize = 0;
    while index < bytes.len()
        invariant
            index <= bytes@.len(),
            hash == fnv(bytes@, index as int),
        decreases bytes@.len() - index,
    {
        let b: u32 = if RECORD_CHECKSUM_OFFSET <= index && index < RECORD_CHECKSUM_OFFSET + 4 {
            0
        } else {
            bytes[index] as u32
        };
        hash = (hash ^ b).wrapping_mul(0x0100_0193);
        index += 1;
    }
    hash
}

/// One entry at `cursor` of a snapshot whose entries end at `used`: the
/// path's start, the kind, the data's start and the entry's end. A path
/// is never empty and a directory carries no data.
pub open spec fn spec_decode_entry(s: Seq<u8>, cursor: int, used: int) -> Result<(int, EntryKind, int, int), StorageError> {
    if cursor + ENTRY_HEADER_BYTES > used {
        Err(StorageError::InvalidRecord)
    } else if s[cursor + 1] != 1 && s[cursor + 1] != 2 {
        Err(StorageError::InvalidRecord)
    } else {
        let kind = if s[cursor + 1] == 1 { EntryKind::File } else { EntryKind::Directory };
        let path_len = s[cursor] as int;
        let data_len = le16(s, cursor + 2);
        let path_start = cursor + ENTRY_HEADER_BYTES;
        let data_start = path_start + path_len;
        let end = data_start + data_len;
        if path_len == 0 || (kind == EntryKind::Directory && data_len != 0) || end > used {
            Err(StorageError::InvalidRecord)
        } else {
            Ok((path_start, kind, data_start, end))
        }
    }
}

pub fn decode_entry<'a>(snapshot: &'a [u8], cursor: usize, used: usize) -> (r: Result<(&'a [u8], EntryKind, &'a [u8], usize), StorageError>)
    requires
        snapshot@.len() == SLOT_BYTES,
        cursor <= used <= SLOT_BYTES,
    ensures
        match (r, spec_decode_entry(snapshot@, cursor as int, used as int)) {
            (Ok((path, kind, data, end)), Ok((ps, k, ds, e))) => path@ == snapshot@.subrange(ps, ds)
                && kind == k && data@ == snapshot@.subrange(ds, e) && end == e,
            (Err(a), Err(b)) => a == b,
            _ => false,
        },
{
    if cursor + ENTRY_HEADER_BYTES > used {
        return Err(StorageError::InvalidRecord);
    }
    let path_len = snapshot[cursor] as usize;
    let kind = if snapshot[cursor + 1] == 1 {
        EntryKind::File
    } else if snapshot[cursor + 1] == 2 {
        EntryKind::Directory
    } else {
        return Err(StorageError::InvalidRecord);
    };
    let data_len = read_le16(snapshot, cursor + 2) as usize;
    if path_len == 0 || (kind == EntryKind::Directory && data_len != 0) {
        return Err(StorageError::InvalidRecord);
    }
    let path_start = cursor + ENTRY_HEADER_BYTES;
    let data_start = path_start + path_len;
    let end = data_start + data_len;
    if end > used {
        return Err(StorageError::InvalidRecord);
    }
    Ok((&snapshot[path_start..data_start], kind, &snapshot[data_start..end], end))
}

/// Where `n` consecutive entries from `cursor` end, if all decode.
pub open spec fn walk_entries(s: Seq<u8>, cursor: int, used: int, n: int) -> Option<int>
    decreases n,
{
    if n <= 0 {
        Some(cursor)
    } else {
        match spec_decode_entry(s, cursor, used) {
            Err(_) => None,
            Ok((_, _, _, next)) => walk_entries(s, next, used, n - 1),
        }
    }
}

/// A committed snapshot of the current version whose checksum matches and
/// whose entries fill exactly the used bytes: its generation.
pub open spec fn spec_validate_snapshot(s: Seq<u8>) -> Result<u64, StorageError> {
    let used = le32(s, 16);
    if s.subrange(0, 4) != record_magic() || le16(s, 4) != RECORD_VERSION || s[6] == 0 || s[7]
        != RECORD_COMMITTED {
        Err(StorageError::InvalidRecord)
    } else if used < RECORD_HEADER_BYTES || used > SLOT_BYTES {
        Err(StorageError::InvalidRecord)
    } else if fnv(s, s.len() as int) != le32(s, RECORD_CHECKSUM_OFFSET as int) {
        Err(StorageError::InvalidRecord)
    } else if walk_entries(s, RECORD_HEADER_BYTES as int, used, s[6] as int) != Some(used) {
        Err(StorageError::InvalidRecord)
    } else {
        Ok(le64(s, 8) as u64)
    }
}

pub fn validate_snapshot(snapshot: &[u8]) -> (r: Result<u64, StorageError>)
    requires
        snapshot@.len() == SLOT_BYTES,
    ensures
        r == spec_validate_snapshot(snapshot@),
{
    let magic = [71u8, 70, 83, 50];
    proof {
        assert(magic@ =~= record_magic());
    }
    if !crate::strings::bytes_equal(&snapshot[0..4], magic.as_slice()) || read_le16(snapshot, 4)
        != RECORD_VERSION || snapshot[6] == 0 || snapshot[7] != RECORD_COMMITTED {
        return Err(StorageError::InvalidRecord);
    }
    let used_raw = read_le32(snapshot, 16);
    if used_raw < RECORD_HEADER_BYTES as u32 || used_raw > SLOT_BYTES as u32 {
        return Err(StorageError::InvalidRecord);
    }
    let used = used_raw as usize;
    let expected = read_le32(snapshot, RECORD_CHECKSUM_OFFSET);
    if checksum(snapshot) != expected {
        return Err(StorageError::InvalidRecord);
    }
    let count = snapshot[6];
    let mut cursor = RECORD_HEADER_BYTES;
    let mut k: u8 = 0;
    while k < count
        invariant
            snapshot@.len() == SLOT_BYTES,
            k <= count,
            count == snapshot@[6],
            cursor <= used <= SLOT_BYTES,
            used == le32(snapshot@, 16),
            used >= RECORD_HEADER_BYTES,
            snapshot@.subrange(0, 4) == record_magic(),
            le16(snapshot@, 4) == RECORD_VERSION,
            snapshot@[6] != 0,
            snapshot@[7] == RECORD_COMMITTED,
            fnv(snapshot@, snapshot@.len() as int) == le32(snapshot@, RECORD_CHECKSUM_OFFSET as int),
            walk_entries(snapshot@, RECORD_HEADER_BYTES as int, used as int, count as int) == walk_entries(
                snapshot@,
                cursor as int,
                used as int,
                count - k,
            ),
        decreases count - k,
    {
        match decode_entry(snapshot, cursor, used) {
            Err(e) => return Err(e),
            Ok((_, _, _, next)) => {
                cursor = next;
            },
        }
        k += 1;
    }
    if cursor != used {
        return Err(StorageError::InvalidRecord);
    }
    Ok(read_le64(snapshot, 8))
}

/// The type byte of partition entry `k` of a boot record.
pub open spec fn entry_type(mbr: Seq<u8>, k: int) -> u8 {
    mbr[446 + 16 * k + 4]
}

/// Whether partition entry `k` describes a usable store: the writable or
/// the read-only store type, a start past sector zero, room for the header
/// sector and both slots, and an end within the sector numbers.
pub open spec fn entry_holds_store(mbr: Seq<u8>, k: int) -> bool {
    let start = le32(mbr, 446 + 16 * k + 8);
    let sectors = le32(mbr, 446 + 16 * k + 12);
    &&& (entry_type(mbr, k) == 0x7f || entry_type(mbr, k) == 0x7e)
    &&& start > 0
    &&& sectors >= 81
    &&& start + sectors <= u32::MAX
}

proof fn lemma_first_partition_is(mbr: Seq<u8>, from: int, k: int)
    requires
        0 <= from <= k < 4,
        entry_holds_store(mbr, k),
        forall|j: int| from <= j < k ==> !entry_holds_store(mbr, j),
    ensures
        first_partition(mbr, from) == spec_partition_entry(mbr, k),
        spec_partition_entry(mbr, k) is Some,
    decreases k - from,
{
    if from < k {
        assert(!entry_holds_store(mbr, from));
        lemma_first_partition_is(mbr, from + 1, k);
    }
}

/// A boot record with the boot signature whose first usable store entry is
/// `k` yields that store: its start and size as recorded, writable for
/// type 0x7f and read-only for type 0x7e.
pub proof fn lemma_store_partition_found(mbr: Seq<u8>, k: int)
    requires
        mbr.len() == 512,
        mbr[510] == 0x55 && mbr[511] == 0xaa,
        0 <= k < 4,
        entry_holds_store(mbr, k),
        forall|j: int| 0 <= j < k ==> !entry_holds_store(mbr, j),
    ensures
        spec_parse_partition(mbr) == Ok::<Partition, StorageError>(
            Partition {
                start_lba: le32(mbr, 446 + 16 * k + 8) as u32,
                sectors: le32(mbr, 446 + 16 * k + 12) as u32,
                read_only: entry_type(mbr, k) == 0x7e,
            },
        ),
{
    lemma_first_partition_is(mbr, 0, k);
}

/// A store is found only in a signed boot record, and it is the store of
/// some usable entry.
pub proof fn lemma_store_partition_sound(mbr: Seq<u8>)
    requires
        spec_parse_partition(mbr) is Ok,
    ensures
        mbr[510] == 0x55 && mbr[511] == 0xaa,
        exists|k: int|
            0 <= k < 4 && entry_holds_store(mbr, k) && spec_parse_partition(mbr) == Ok::<Partition, StorageError>(
                Partition {
                    start_lba: le32(mbr, 446 + 16 * k + 8) as u32,
                    sectors: le32(mbr, 446 + 16 * k + 12) as u32,
                    read_only: entry_type(mbr, k) == 0x7e,
                },
            ),
{
    if entry_holds_store(mbr, 0) {
        lemma_first_partition_is(mbr, 0, 0);
    } else if entry_holds_store(mbr, 1) {
        lemma_first_partition_is(mbr, 0, 1);
    } else if entry_holds_store(mbr, 2) {
        lemma_first_partition_is(mbr, 0, 2);
    } else if entry_holds_store(mbr, 3) {
        lemma_first_partition_is(mbr, 0, 3);
    } else {
        assert(spec_partition_entry(mbr, 0) is None);
        assert(spec_partition_entry(mbr, 1) is None);
        assert(spec_partition_entry(mbr, 2) is None);
        assert(spec_partition_entry(mbr, 3) is None);
        reveal_with_fuel(first_partition, 5);
        assert(first_partition(mbr, 0) is None);
    }
}

} // verus!
