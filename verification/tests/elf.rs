use genos::elf::{ElfError, ElfImage, FLAG_EXECUTE, FLAG_READ};

const ELF_HEADER_SIZE: usize = 64;
const PROGRAM_HEADER_SIZE: usize = 56;
const PT_LOAD: u32 = 1;
const ET_EXEC: u16 = 2;
const EM_X86_64: u16 = 62;

fn valid_elf() -> [u8; 320] {
    let mut bytes = [0u8; 320];
    bytes[0..4].copy_from_slice(b"\x7fELF");
    bytes[4] = 2;
    bytes[5] = 1;
    bytes[6] = 1;
    put_u16(&mut bytes, 16, ET_EXEC);
    put_u16(&mut bytes, 18, EM_X86_64);
    put_u32(&mut bytes, 20, 1);
    put_u64(&mut bytes, 24, 0x4000);
    put_u64(&mut bytes, 32, ELF_HEADER_SIZE as u64);
    put_u16(&mut bytes, 52, ELF_HEADER_SIZE as u16);
    put_u16(&mut bytes, 54, PROGRAM_HEADER_SIZE as u16);
    put_u16(&mut bytes, 56, 1);
    put_u32(&mut bytes, 64, PT_LOAD);
    put_u32(&mut bytes, 68, FLAG_READ | FLAG_EXECUTE);
    put_u64(&mut bytes, 72, 256);
    put_u64(&mut bytes, 80, 0x4000);
    put_u64(&mut bytes, 96, 8);
    put_u64(&mut bytes, 104, 16);
    put_u64(&mut bytes, 112, 256);
    bytes[256..264].copy_from_slice(b"GENOSELF");
    bytes
}

fn put_u16(bytes: &mut [u8], offset: usize, value: u16) {
    bytes[offset..offset + 2].copy_from_slice(&value.to_le_bytes());
}

fn put_u32(bytes: &mut [u8], offset: usize, value: u32) {
    bytes[offset..offset + 4].copy_from_slice(&value.to_le_bytes());
}

fn put_u64(bytes: &mut [u8], offset: usize, value: u64) {
    bytes[offset..offset + 8].copy_from_slice(&value.to_le_bytes());
}

#[test]
fn parses_bounded_elf64_load_segments() {
    let bytes = valid_elf();
    let image = ElfImage::parse(&bytes).unwrap();
    let segment = image.segments().next().unwrap().unwrap();
    assert_eq!(image.entry(), 0x4000);
    assert_eq!(segment.file_offset, 256);
    assert_eq!(segment.virtual_address, 0x4000);
    assert_eq!(segment.memory_size, 16);
    assert_eq!(segment.file_data, b"GENOSELF");
    assert_eq!(segment.flags, FLAG_READ | FLAG_EXECUTE);
}

#[test]
fn rejects_truncated_program_tables() {
    let mut bytes = valid_elf();
    put_u16(&mut bytes, 56, 8);
    assert_eq!(ElfImage::parse(&bytes).err(), Some(ElfError::Truncated));
}

#[test]
fn rejects_segments_larger_on_disk_than_in_memory() {
    let mut bytes = valid_elf();
    put_u64(&mut bytes, 96, 32);
    put_u64(&mut bytes, 104, 16);
    assert_eq!(
        ElfImage::parse(&bytes).err(),
        Some(ElfError::InvalidSegment)
    );
}

#[test]
fn rejects_program_table_inside_elf_header() {
    let mut bytes = valid_elf();
    put_u64(&mut bytes, 32, 32);
    assert_eq!(
        ElfImage::parse(&bytes).err(),
        Some(ElfError::InvalidHeaders)
    );
}

#[test]
fn rejects_non_power_of_two_segment_alignment() {
    let mut bytes = valid_elf();
    put_u64(&mut bytes, 112, 24);
    assert_eq!(
        ElfImage::parse(&bytes).err(),
        Some(ElfError::InvalidSegment)
    );
}

#[test]
fn header_errors_come_in_order() {
    assert_eq!(ElfImage::parse(&[0u8; 10]).err(), Some(ElfError::Truncated));
    let mut bytes = valid_elf();
    bytes[1] = b'F';
    assert_eq!(ElfImage::parse(&bytes).err(), Some(ElfError::InvalidMagic));
    let mut bytes = valid_elf();
    put_u16(&mut bytes, 18, 3);
    assert_eq!(ElfImage::parse(&bytes).err(), Some(ElfError::Unsupported));
    let mut bytes = valid_elf();
    put_u64(&mut bytes, 24, 0);
    assert_eq!(ElfImage::parse(&bytes).err(), Some(ElfError::InvalidHeaders));
}

#[test]
fn image_without_load_segments_is_rejected_and_others_are_skipped() {
    let mut bytes = valid_elf();
    put_u32(&mut bytes, 64, 6);
    assert_eq!(ElfImage::parse(&bytes).err(), Some(ElfError::InvalidSegment));
    let mut bytes = valid_elf();
    put_u16(&mut bytes, 56, 2);
    put_u32(&mut bytes, 64, 6);
    put_u32(&mut bytes, 120, PT_LOAD);
    put_u64(&mut bytes, 120 + 8, 256);
    put_u64(&mut bytes, 120 + 32, 8);
    put_u64(&mut bytes, 120 + 40, 8);
    put_u64(&mut bytes, 120 + 48, 1);
    let image = ElfImage::parse(&bytes).unwrap();
    assert_eq!(image.byte_len(), 320);
    let mut segments = image.segments();
    assert_eq!(segments.next().unwrap().unwrap().memory_size, 8);
    assert!(segments.next().is_none());
}
