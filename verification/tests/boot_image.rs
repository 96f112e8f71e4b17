use genos::abi::{BootInfo, MemoryRegion, MemoryRegionKind, MAX_MEMORY_REGIONS};
use genos::boot_image::{
    classify_memory, fill_memory_map, image_fits_check, load_plan, read_header, BootError,
    MemoryDescriptor, SegmentCopy,
};

fn put16(b: &mut [u8], at: usize, v: u16) {
    b[at..at + 2].copy_from_slice(&v.to_le_bytes());
}

fn put32(b: &mut [u8], at: usize, v: u32) {
    b[at..at + 4].copy_from_slice(&v.to_le_bytes());
}

fn put64(b: &mut [u8], at: usize, v: u64) {
    b[at..at + 8].copy_from_slice(&v.to_le_bytes());
}

/// An image with a header and the given (kind, offset, paddr, filesz, memsz)
/// program headers, followed by `payload` bytes of file data.
fn image(headers: &[(u32, u64, u64, u64, u64)], payload: usize) -> Vec<u8> {
    let mut b = vec![0u8; 64 + 56 * headers.len() + payload];
    b[0..4].copy_from_slice(&[0x7f, b'E', b'L', b'F']);
    b[4] = 2;
    b[5] = 1;
    put16(&mut b, 16, 2);
    put16(&mut b, 18, 62);
    put32(&mut b, 20, 1);
    put64(&mut b, 24, 0x20_0040);
    put64(&mut b, 32, 64);
    put16(&mut b, 52, 64);
    put16(&mut b, 54, 56);
    put16(&mut b, 56, headers.len() as u16);
    for (i, &(kind, offset, paddr, filesz, memsz)) in headers.iter().enumerate() {
        let o = 64 + 56 * i;
        put32(&mut b, o, kind);
        put64(&mut b, o + 8, offset);
        put64(&mut b, o + 16, paddr);
        put64(&mut b, o + 24, paddr);
        put64(&mut b, o + 32, filesz);
        put64(&mut b, o + 40, memsz);
        put64(&mut b, o + 48, 0x1000);
    }
    b
}

#[test]
fn load_plan_covers_loadable_segments() {
    let bytes = image(
        &[(1, 176, 0x20_0000, 16, 0x1800), (4, 0, 0, 0, 0), (1, 180, 0x30_0010, 4, 8)],
        16,
    );
    let header = read_header(&bytes).unwrap();
    assert!(image_fits_check(&bytes, &header));
    let plan = load_plan(&bytes).unwrap();
    assert_eq!(plan.kernel.entry, 0x20_0040);
    assert_eq!(plan.image_start, 0x20_0000);
    assert_eq!(plan.pages, (0x30_1000 - 0x20_0000) / 4096);
    assert_eq!(
        plan.segments,
        vec![
            SegmentCopy { physical_address: 0x20_0000, memory_size: 0x1800, file_start: 176, file_end: 192 },
            SegmentCopy { physical_address: 0x30_0010, memory_size: 8, file_start: 180, file_end: 184 },
        ]
    );
}

#[test]
fn load_plan_refuses_short_image() {
    assert_eq!(load_plan(&[0x7f, b'E', b'L', b'F']).err(), Some(BootError::LoadError));
}

#[test]
fn load_plan_refuses_wrong_machine() {
    let mut bytes = image(&[(1, 120, 0x20_0000, 0, 16)], 0);
    put16(&mut bytes, 18, 3);
    assert!(load_plan(&bytes).is_err());
}

#[test]
fn load_plan_refuses_image_without_loadable_segment() {
    let bytes = image(&[(4, 0, 0, 0, 0)], 0);
    assert!(load_plan(&bytes).is_err());
}

#[test]
fn load_plan_refuses_segment_past_file() {
    let bytes = image(&[(1, 120, 0x20_0000, 64, 64)], 8);
    assert!(load_plan(&bytes).is_err());
}

#[test]
fn load_plan_refuses_memory_smaller_than_file() {
    let bytes = image(&[(1, 120, 0x20_0000, 8, 4)], 8);
    assert!(load_plan(&bytes).is_err());
}

#[test]
fn image_fits_check_refuses_overflowing_segment() {
    let bytes = image(&[(1, 120, u64::MAX - 16, 0, 16)], 0);
    let header = read_header(&bytes).unwrap();
    assert!(!image_fits_check(&bytes, &header));
}

#[test]
fn memory_types_classify() {
    assert_eq!(classify_memory(7), MemoryRegionKind::Usable);
    assert_eq!(classify_memory(1), MemoryRegionKind::Bootloader);
    assert_eq!(classify_memory(2), MemoryRegionKind::Bootloader);
    assert_eq!(classify_memory(3), MemoryRegionKind::Reserved);
    assert_eq!(classify_memory(4), MemoryRegionKind::Reserved);
    assert_eq!(classify_memory(9), MemoryRegionKind::Acpi);
    assert_eq!(classify_memory(10), MemoryRegionKind::Acpi);
    assert_eq!(classify_memory(11), MemoryRegionKind::Mmio);
    assert_eq!(classify_memory(13), MemoryRegionKind::Mmio);
    assert_eq!(classify_memory(0), MemoryRegionKind::Reserved);
    assert_eq!(classify_memory(99), MemoryRegionKind::Reserved);
}

#[test]
fn memory_map_fills_regions_in_order() {
    let mut info = BootInfo::empty();
    let map = [
        MemoryDescriptor { kind: 7, phys_start: 0x10_0000, page_count: 16 },
        MemoryDescriptor { kind: 11, phys_start: 0xfee0_0000, page_count: 1 },
    ];
    fill_memory_map(&mut info, &map);
    assert_eq!(info.memory_map.region_count, 2);
    assert_eq!(
        info.memory_map.regions[0],
        MemoryRegion { start: 0x10_0000, size: 16 * 4096, kind: MemoryRegionKind::Usable }
    );
    assert_eq!(
        info.memory_map.regions[1],
        MemoryRegion { start: 0xfee0_0000, size: 4096, kind: MemoryRegionKind::Mmio }
    );
    assert_eq!(info.memory_map.regions[2], MemoryRegion::empty());
}

#[test]
fn memory_map_stops_at_capacity() {
    let mut info = BootInfo::empty();
    let map: Vec<MemoryDescriptor> = (0..MAX_MEMORY_REGIONS as u64 + 10)
        .map(|i| MemoryDescriptor { kind: 7, phys_start: i * 4096, page_count: 1 })
        .collect();
    fill_memory_map(&mut info, &map);
    assert_eq!(info.memory_map.region_count, MAX_MEMORY_REGIONS as u64);
    assert_eq!(info.memory_map.regions[MAX_MEMORY_REGIONS - 1].start, (MAX_MEMORY_REGIONS as u64 - 1) * 4096);
}
