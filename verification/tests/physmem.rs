use std::collections::BTreeSet;
use genos::abi::{MemoryRegion, MemoryRegionKind};
use genos::physmem::{FrameAllocator, PAGE_SIZE};


fn region(start: u64, size: u64, kind: MemoryRegionKind) -> MemoryRegion {
    MemoryRegion { start, size, kind }
}

#[test]
fn allocator_never_crosses_reserved_gaps() {
    let mut allocator = FrameAllocator::<64>::new();
    allocator.add_region(region(0x1003, 0x2ffd, MemoryRegionKind::Usable));
    allocator.add_region(region(0x9000, 0x2000, MemoryRegionKind::Usable));

    assert_eq!(allocator.alloc_frame(), Some(0x2000));
    assert_eq!(allocator.alloc_frame(), Some(0x3000));
    assert_eq!(allocator.alloc_frame(), Some(0x9000));
    assert_eq!(allocator.alloc_frame(), Some(0xa000));
    assert_eq!(allocator.alloc_frame(), None);
}

#[test]
fn allocator_ignores_non_usable_and_partial_pages() {
    let mut allocator = FrameAllocator::<64>::new();
    allocator.add_region(region(0x1000, 0x4000, MemoryRegionKind::Reserved));
    allocator.add_region(region(0x7001, 0xffe, MemoryRegionKind::Usable));
    allocator.add_region(region(0x8001, 0x1fff, MemoryRegionKind::Usable));

    assert_eq!(allocator.region_count(), 1);
    assert_eq!(allocator.usable_bytes(), PAGE_SIZE);
    assert_eq!(allocator.alloc_frame(), Some(0x9000));
    assert_eq!(allocator.allocated_frames(), 1);
}

#[test]
fn allocator_reserves_the_null_page() {
    let mut allocator = FrameAllocator::<64>::new();
    allocator.add_region(region(0, 0x3000, MemoryRegionKind::Usable));

    assert_eq!(allocator.alloc_frame(), Some(0x1000));
    assert_eq!(allocator.alloc_frame(), Some(0x2000));
    assert_eq!(allocator.alloc_frame(), None);
}

#[test]
fn allocator_orders_firmware_regions_before_use() {
    let mut allocator = FrameAllocator::<64>::new();
    allocator.add_region(region(0x9000, 0x1000, MemoryRegionKind::Usable));
    allocator.add_region(region(0x3000, 0x1000, MemoryRegionKind::Usable));

    assert_eq!(allocator.alloc_frame(), Some(0x3000));
    assert_eq!(allocator.alloc_frame(), Some(0x9000));
}

#[test]
fn allocator_layout_is_immutable_after_first_allocation() {
    let mut allocator = FrameAllocator::<64>::new();
    allocator.add_region(region(0x3000, 0x1000, MemoryRegionKind::Usable));
    assert_eq!(allocator.alloc_frame(), Some(0x3000));

    allocator.add_region(region(0x1000, 0x1000, MemoryRegionKind::Usable));
    assert_eq!(allocator.alloc_frame(), None);
}

#[test]
fn freed_frames_are_reused_without_double_free() {
    let mut allocator = FrameAllocator::<64>::new();
    allocator.add_region(region(0x1000, 0x4000, MemoryRegionKind::Usable));
    let first = allocator.alloc_frame().unwrap();
    let second = allocator.alloc_frame().unwrap();

    assert!(allocator.free_frame(first));
    assert!(!allocator.free_frame(first));
    assert!(!allocator.free_frame(0x4000));
    assert_eq!(allocator.recycled_frames(), 1);
    assert_eq!(allocator.allocated_frames(), 1);
    assert_eq!(allocator.alloc_frame(), Some(first));
    assert_eq!(allocator.allocated_frames(), 2);
    assert_eq!(second, 0x2000);
}

#[test]
fn more_than_256_reclaimed_pages_remain_lossless() {
    let mut allocator = FrameAllocator::<32>::new();
    assert!(allocator.add_region(region(0x1000, PAGE_SIZE * 1025, MemoryRegionKind::Usable)));
    let frames: std::vec::Vec<_> = (0..1025)
        .map(|_| allocator.alloc_frame().unwrap())
        .collect();
    assert!(allocator.alloc_frame().is_none());
    for &frame in frames.iter().rev() {
        assert!(allocator.free_frame(frame));
    }
    assert_eq!(allocator.recycled_frames(), 1025);
    assert!(allocator.is_consistent());
    for &frame in &frames {
        assert_eq!(allocator.alloc_frame(), Some(frame));
    }
    assert!(allocator.alloc_frame().is_none());
    assert!(allocator.is_consistent());
}

#[test]
fn overlap_exhaustion_and_mutation_after_all_frames_return_fail_closed() {
    let mut allocator = FrameAllocator::<1>::new();
    assert!(!allocator.add_region(region(u64::MAX - 8191, 16384, MemoryRegionKind::Usable)));
    assert_eq!(allocator.region_count(), 0);
    assert!(allocator.add_region(region(0x2000, PAGE_SIZE * 32, MemoryRegionKind::Usable)));
    assert!(!allocator.add_region(region(0x1000, PAGE_SIZE * 2, MemoryRegionKind::Usable)));
    assert!(!allocator.add_region(region(0x100000, PAGE_SIZE * 33, MemoryRegionKind::Usable)));
    assert_eq!(allocator.region_count(), 1);
    let frame = allocator.alloc_frame().unwrap();
    assert!(allocator.free_frame(frame));
    assert!(!allocator.add_region(region(0x900000, PAGE_SIZE, MemoryRegionKind::Usable)));
    assert_eq!(allocator.alloc_frame(), Some(frame));
}

#[test]
fn randomized_fragmented_allocations_never_alias_live_grants() {
    let mut allocator = FrameAllocator::<16>::new();
    for index in 0..8 {
        assert!(allocator.add_region(region(
            0x1000 + index * 0x100000,
            PAGE_SIZE * 100,
            MemoryRegionKind::Usable
        )));
    }
    let mut live = BTreeSet::new();
    let mut random = 0x1234_5678u64;
    for _ in 0..20_000 {
        random ^= random << 13;
        random ^= random >> 7;
        random ^= random << 17;
        if random & 3 == 0 && !live.is_empty() {
            let frame = *live.iter().nth((random as usize) % live.len()).unwrap();
            assert!(allocator.free_frame(frame));
            assert!(!allocator.free_frame(frame));
            live.remove(&frame);
        } else if let Some(frame) = allocator.alloc_frame() {
            assert!(live.insert(frame));
        }
        assert_eq!(allocator.allocated_frames(), live.len() as u64);
        assert!(allocator.is_consistent());
    }
    for frame in live {
        assert!(allocator.free_frame(frame));
    }
    assert_eq!(allocator.allocated_frames(), 0);
}

#[test]
fn unaligned_null_and_foreign_frames_are_refused() {
    let mut allocator = FrameAllocator::<4>::new();
    assert!(allocator.add_region(region(0x1000, 0x2000, MemoryRegionKind::Usable)));
    let frame = allocator.alloc_frame().unwrap();
    assert!(!allocator.free_frame(0));
    assert!(!allocator.free_frame(frame + 1));
    assert!(!allocator.free_frame(0x9000));
    assert!(allocator.free_frame(frame));
    assert_eq!(allocator.allocated_frames(), 0);
    assert_eq!(allocator.recycled_frames(), 1);
}

#[test]
fn overlapping_region_is_refused_without_change() {
    let mut allocator = FrameAllocator::<4>::new();
    assert!(allocator.add_region(region(0x4000, 0x2000, MemoryRegionKind::Usable)));
    assert!(!allocator.add_region(region(0x5000, 0x2000, MemoryRegionKind::Usable)));
    assert!(allocator.add_region(region(0x1000, 0x1000, MemoryRegionKind::Acpi)));
    assert_eq!(allocator.region_count(), 1);
    assert_eq!(allocator.usable_bytes(), 2 * PAGE_SIZE);
    assert!(allocator.is_consistent());
}
