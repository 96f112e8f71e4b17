use genos::block_cache::{BlockCache, MemoryDisk, PersistentFs, SectorDevice, CACHE_ENTRIES};
use genos::storage::{checksum, Partition, StorageError, RECORD_COMMITTED};

fn disk(sectors: usize) -> MemoryDisk {
    let mut all = Vec::new();
    for i in 0..sectors {
        all.push([i as u8; 512]);
    }
    MemoryDisk { sectors: all }
}

#[test]
fn read_hits_after_first_miss() {
    let mut d = disk(4);
    let mut cache = BlockCache::new();
    let mut out = [0u8; 512];
    cache.read(&mut d, 2, &mut out).unwrap();
    assert_eq!(out, [2u8; 512]);
    assert_eq!((cache.hits, cache.misses), (0, 1));
    cache.read(&mut d, 2, &mut out).unwrap();
    assert_eq!((cache.hits, cache.misses), (1, 1));
}

#[test]
fn written_sector_reads_back_before_flush() {
    let mut d = disk(4);
    let mut cache = BlockCache::new();
    cache.write(&mut d, 1, &[0xab; 512]).unwrap();
    assert_eq!(d.sectors[1], [1u8; 512]);
    let mut out = [0u8; 512];
    cache.read(&mut d, 1, &mut out).unwrap();
    assert_eq!(out, [0xab; 512]);
    assert_eq!(cache.writebacks, 0);
}

#[test]
fn flush_makes_writes_durable() {
    let mut d = disk(4);
    let mut cache = BlockCache::new();
    cache.write(&mut d, 3, &[7; 512]).unwrap();
    cache.write(&mut d, 0, &[9; 512]).unwrap();
    cache.flush(&mut d).unwrap();
    assert_eq!(d.sectors[3], [7; 512]);
    assert_eq!(d.sectors[0], [9; 512]);
    assert_eq!(cache.writebacks, 2);
    cache.flush(&mut d).unwrap();
    assert_eq!(cache.writebacks, 2);
}

#[test]
fn eviction_writes_back_least_recently_used() {
    let mut d = disk(CACHE_ENTRIES + 2);
    let mut cache = BlockCache::new();
    for lba in 0..CACHE_ENTRIES as u32 {
        cache.write(&mut d, lba, &[0x80 | lba as u8; 512]).unwrap();
    }
    let mut out = [0u8; 512];
    // Touch sector 0 so that sector 1 is the least recently used.
    cache.read(&mut d, 0, &mut out).unwrap();
    cache.write(&mut d, CACHE_ENTRIES as u32, &[0xee; 512]).unwrap();
    assert_eq!(cache.writebacks, 1);
    assert_eq!(d.sectors[1], [0x81; 512]);
    assert_eq!(d.sectors[0], [0u8; 512]);
    for lba in 0..CACHE_ENTRIES as u32 {
        cache.read(&mut d, lba, &mut out).unwrap();
        assert_eq!(out, [0x80 | lba as u8; 512]);
    }
    cache.read(&mut d, CACHE_ENTRIES as u32, &mut out).unwrap();
    assert_eq!(out, [0xee; 512]);
}

#[test]
fn failed_read_leaves_output_and_view() {
    let mut d = disk(2);
    let mut cache = BlockCache::new();
    let mut out = [5u8; 512];
    assert_eq!(cache.read(&mut d, 9, &mut out), Err(StorageError::Device));
    assert_eq!(out, [5u8; 512]);
    cache.read(&mut d, 1, &mut out).unwrap();
    assert_eq!(out, [1u8; 512]);
}

#[test]
fn memory_disk_refuses_sectors_past_end() {
    let mut d = disk(1);
    assert_eq!(d.write_sector(1, &[0; 512]), Err(StorageError::Device));
    assert_eq!(d.flush(), Ok(()));
}

fn store(read_only: bool) -> PersistentFs {
    PersistentFs {
        partition: Some(Partition { start_lba: 100, sectors: 200, read_only }),
        cache: BlockCache::new(),
        active_slot: None,
        generation: 0,
        read_only,
    }
}

fn image(fill: u8) -> [u8; 20480] {
    let mut image = [fill; 20480];
    image[7] = 0;
    image
}

#[test]
fn commits_alternate_slots_and_keep_the_other() {
    let mut d = disk(300);
    let mut fs = store(false);
    assert!(fs.available());
    let mut first = image(0x11);
    assert_eq!(fs.commit_image(&mut d, &mut first), Ok(()));
    assert_eq!(first[7], RECORD_COMMITTED);
    assert_eq!(u32::from_le_bytes([first[20], first[21], first[22], first[23]]), checksum(&first));
    assert_eq!(fs.active_slot, Some(0));
    assert_eq!(fs.generation, 1);
    for k in 0..40 {
        assert_eq!(&d.sectors[101 + k][..], &first[k * 512..k * 512 + 512]);
    }
    let mut second = image(0x22);
    assert_eq!(fs.commit_image(&mut d, &mut second), Ok(()));
    assert_eq!(fs.active_slot, Some(1));
    assert_eq!(fs.generation, 2);
    for k in 0..40 {
        assert_eq!(&d.sectors[141 + k][..], &second[k * 512..k * 512 + 512]);
        assert_eq!(&d.sectors[101 + k][..], &first[k * 512..k * 512 + 512]);
    }
    assert_eq!(d.sectors[100], [100u8; 512]);
    assert_eq!(d.sectors[181], [181u8; 512]);
}

#[test]
fn commit_refusals() {
    let mut d = disk(300);
    let mut ro = store(true);
    assert!(ro.read_only());
    assert_eq!(ro.commit_image(&mut d, &mut image(1)), Err(StorageError::Device));
    let mut none = store(false);
    none.partition = None;
    assert!(!none.available());
    assert_eq!(none.commit_image(&mut d, &mut image(1)), Err(StorageError::InvalidPartition));
    let mut full = store(false);
    full.generation = u64::MAX;
    assert_eq!(full.commit_image(&mut d, &mut image(1)), Err(StorageError::NoSpace));
    assert_eq!(full.active_slot, None);
}

#[test]
fn failed_commit_leaves_the_other_slot() {
    let mut d = disk(120);
    let mut fs = store(false);
    fs.active_slot = Some(0);
    let before = d.sectors[101];
    assert_eq!(fs.commit_image(&mut d, &mut image(3)), Err(StorageError::Device));
    assert_eq!(fs.active_slot, Some(0));
    assert_eq!(fs.generation, 0);
    assert_eq!(d.sectors[101], before);
}
