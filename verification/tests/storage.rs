use genos::storage::{
    checksum, decode_entry, newest_valid_slot, parse_partition, validate_snapshot, EntryKind,
    Partition, SlotSummary, StorageError, RECORD_CHECKSUM_OFFSET, SLOT_BYTES,
};

#[test]
fn newest_valid_generation_wins_and_torn_slot_is_ignored() {
    assert_eq!(
        newest_valid_slot(&[
            SlotSummary {
                generation: Some(8),
                blank: false,
                readable: true,
            },
            SlotSummary {
                generation: None,
                blank: false,
                readable: true,
            },
        ]),
        Some(0)
    );
}

#[test]
fn higher_generation_and_tie_choose_the_right_slot() {
    let slot = |generation| SlotSummary { generation, blank: false, readable: true };
    assert_eq!(newest_valid_slot(&[slot(Some(3)), slot(Some(9))]), Some(1));
    assert_eq!(newest_valid_slot(&[slot(Some(9)), slot(Some(3))]), Some(0));
    assert_eq!(newest_valid_slot(&[slot(Some(5)), slot(Some(5))]), Some(0));
    assert_eq!(newest_valid_slot(&[slot(None), slot(Some(1))]), Some(1));
    assert_eq!(newest_valid_slot(&[slot(None), slot(None)]), None);
}

fn snapshot() -> Vec<u8> {
    let mut s = vec![0u8; SLOT_BYTES];
    s[..4].copy_from_slice(b"GFS2");
    s[4..6].copy_from_slice(&3u16.to_le_bytes());
    s[6] = 2;
    s[7] = 0xa5;
    s[8..16].copy_from_slice(&42u64.to_le_bytes());
    let mut cursor = 64;
    let path = b"/USER/A.TXT";
    s[cursor] = path.len() as u8;
    s[cursor + 1] = 1;
    s[cursor + 2..cursor + 4].copy_from_slice(&3u16.to_le_bytes());
    cursor += 4;
    s[cursor..cursor + path.len()].copy_from_slice(path);
    cursor += path.len();
    s[cursor..cursor + 3].copy_from_slice(b"abc");
    cursor += 3;
    let dir = b"/USER/D";
    s[cursor] = dir.len() as u8;
    s[cursor + 1] = 2;
    cursor += 4;
    s[cursor..cursor + dir.len()].copy_from_slice(dir);
    cursor += dir.len();
    s[16..20].copy_from_slice(&(cursor as u32).to_le_bytes());
    let sum = checksum(&s);
    s[RECORD_CHECKSUM_OFFSET..RECORD_CHECKSUM_OFFSET + 4].copy_from_slice(&sum.to_le_bytes());
    s
}

#[test]
fn committed_snapshot_validates_to_its_generation() {
    let s = snapshot();
    assert_eq!(validate_snapshot(&s), Ok(42));
    let (path, kind, data, next) = decode_entry(&s, 64, 64 + 4 + 11 + 3 + 4 + 7).unwrap();
    assert_eq!(path, b"/USER/A.TXT");
    assert_eq!(kind, EntryKind::File);
    assert_eq!(data, b"abc");
    assert_eq!(next, 64 + 4 + 11 + 3);
}

#[test]
fn corrupt_or_uncommitted_snapshots_are_rejected() {
    let mut s = snapshot();
    s[100] ^= 1;
    assert_eq!(validate_snapshot(&s), Err(StorageError::InvalidRecord));
    let mut s = snapshot();
    s[7] = 0;
    assert_eq!(validate_snapshot(&s), Err(StorageError::InvalidRecord));
    let mut s = snapshot();
    s[6] = 3;
    let sum = checksum(&s);
    s[RECORD_CHECKSUM_OFFSET..RECORD_CHECKSUM_OFFSET + 4].copy_from_slice(&sum.to_le_bytes());
    assert_eq!(validate_snapshot(&s), Err(StorageError::InvalidRecord));
}

#[test]
fn checksum_ignores_its_own_field() {
    let mut a = vec![1u8; 64];
    let b = a.clone();
    a[RECORD_CHECKSUM_OFFSET] = 0xff;
    assert_eq!(checksum(&a), checksum(&b));
    a[0] = 2;
    assert_ne!(checksum(&a), checksum(&b));
    assert_eq!(checksum(&[]), 0x811c_9dc5);
}

#[test]
fn the_store_partition_is_found_in_the_boot_record() {
    let mut mbr = [0u8; 512];
    mbr[510] = 0x55;
    mbr[511] = 0xaa;
    assert_eq!(parse_partition(&mbr), Err(StorageError::InvalidPartition));
    let entry = 446 + 16;
    mbr[entry + 4] = 0x7e;
    mbr[entry + 8..entry + 12].copy_from_slice(&2048u32.to_le_bytes());
    mbr[entry + 12..entry + 16].copy_from_slice(&81u32.to_le_bytes());
    assert_eq!(
        parse_partition(&mbr),
        Ok(Partition { start_lba: 2048, sectors: 81, read_only: true })
    );
    mbr[entry + 12..entry + 16].copy_from_slice(&80u32.to_le_bytes());
    assert_eq!(parse_partition(&mbr), Err(StorageError::InvalidPartition));
    mbr[511] = 0;
    assert_eq!(parse_partition(&mbr), Err(StorageError::InvalidPartition));
}
