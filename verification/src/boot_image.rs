//! The bootloader's checks on the kernel image: the ELF header, the
//! physical range the loadable segments cover, and the copy each segment
//! asks for. Allocating that range and copying into it is firmware work.
use vstd::prelude::*;
use crate::abi::{BootInfo, MemoryRegion, MemoryRegionKind, MAX_MEMORY_REGIONS};
use crate::wire::{le16, le32, le64, read_le16, read_le32, read_le64};

verus! {

pub const PT_LOAD: u32 = 1;
pub const EI_CLASS_64: u8 = 2;
pub const EI_DATA_LSB: u8 = 1;
pub const ET_EXEC: u16 = 2;
pub const EM_X86_64: u16 = 62;
/// The size of an ELF64 file header.
pub const HEADER_BYTES: usize = 64;
/// The size of an ELF64 program header.
pub const PROGRAM_HEADER_BYTES: usize = 56;

/// Where the kernel starts.
#[derive(Clone, Copy, Debug, PartialEq, Eq, Structural)]
pub struct LoadedKernel {
    pub entry: u64,
}

/// Why an image cannot be loaded.
#[derive(Clone, Copy, Debug, PartialEq, Eq, Structural)]
pub enum BootError {
    LoadError,
}

/// An ELF64 file header, as its fields.
#[derive(Clone, Copy)]
pub struct Elf64Header {
    pub ident: [u8; 16],
    pub elf_type: u16,
    pub machine: u16,
    pub version: u32,
    pub entry: u64,
    pub phoff: u64,
    pub shoff: u64,
    pub flags: u32,
    pub ehsize: u16,
    pub phentsize: u16,
    pub phnum: u16,
    pub shentsize: u16,
    pub shnum: u16,
    pub shstrndx: u16,
}

/// An ELF64 program header, as its fields.
#[derive(Clone, Copy, Debug, PartialEq, Eq, Structural)]
pub struct ProgramHeader {
    pub kind: u32,
    pub flags: u32,
    pub offset: u64,
    pub vaddr: u64,
    pub paddr: u64,
    pub filesz: u64,
    pub memsz: u64,
    pub align: u64,
}

/// The header fields of an image at least a header long, little-endian.
pub open spec fn header_matches(h: Elf64Header, b: Seq<u8>) -> bool {
    &&& h.ident@ == b.subrange(0, 16)
    &&& h.elf_type == le16(b, 16)
    &&& h.machine == le16(b, 18)
    &&& h.version == le32(b, 20)
    &&& h.entry == le64(b, 24)
    &&& h.phoff == le64(b, 32)
    &&& h.shoff == le64(b, 40)
    &&& h.flags == le32(b, 48)
    &&& h.ehsize == le16(b, 52)
    &&& h.phentsize == le16(b, 54)
    &&& h.phnum == le16(b, 56)
    &&& h.shentsize == le16(b, 58)
    &&& h.shnum == le16(b, 60)
    &&& h.shstrndx == le16(b, 62)
}

/// The program header at `o`, little-endian.
pub open spec fn spec_program_header(b: Seq<u8>, o: int) -> ProgramHeader {
    ProgramHeader {
        kind: le32(b, o) as u32,
        flags: le32(b, o + 4) as u32,
        offset: le64(b, o + 8) as u64,
        vaddr: le64(b, o + 16) as u64,
        paddr: le64(b, o + 24) as u64,
        filesz: le64(b, o + 32) as u64,
        memsz: le64(b, o + 40) as u64,
        align: le64(b, o + 48) as u64,
    }
}

/// Reads the file header; an image shorter than a header is refused.
pub fn read_header(bytes: &[u8]) -> (r: Result<Elf64Header, BootError>)
    ensures
        bytes@.len() < HEADER_BYTES <==> r is Err,
        r matches Ok(h) ==> header_matches(h, bytes@),
{
    if bytes.len() < HEADER_BYTES {
        return Err(BootError::LoadError);
    }
    let mut ident = [0u8; 16];
    let mut i: usize = 0;
    while i < 16
        invariant
            bytes@.len() >= HEADER_BYTES,
            i <= 16,
            forall|j: int| 0 <= j < i ==> ident@[j] == bytes@[j],
        decreases 16 - i,
    {
        ident[i] = bytes[i];
        i += 1;
    }
    assert(ident@ =~= bytes@.subrange(0, 16));
    Ok(
        Elf64Header {
            ident,
            elf_type: read_le16(bytes, 16),
            machine: read_le16(bytes, 18),
            version: read_le32(bytes, 20),
            entry: read_le64(bytes, 24),
            phoff: read_le64(bytes, 32),
            shoff: read_le64(bytes, 40),
            flags: read_le32(bytes, 48),
            ehsize: read_le16(bytes, 52),
            phentsize: read_le16(bytes, 54),
            phnum: read_le16(bytes, 56),
            shentsize: read_le16(bytes, 58),
            shnum: read_le16(bytes, 60),
            shstrndx: read_le16(bytes, 62),
        },
    )
}

/// An executable little-endian ELF64 image for x86-64 whose program
/// headers have the ELF64 size.
pub open spec fn spec_header_valid(h: Elf64Header) -> bool {
    &&& h.ident@[0] == 0x7f && h.ident@[1] == 0x45 && h.ident@[2] == 0x4c && h.ident@[3] == 0x46
    &&& h.ident@[4] == EI_CLASS_64 && h.ident@[5] == EI_DATA_LSB
    &&& h.elf_type == ET_EXEC && h.machine == EM_X86_64
    &&& h.phentsize == PROGRAM_HEADER_BYTES
}

pub fn validate_header(h: &Elf64Header) -> (r: Result<(), BootError>)
    ensures
        r is Ok <==> spec_header_valid(*h),
{
    if !(h.ident[0] == 0x7f && h.ident[1] == 0x45 && h.ident[2] == 0x4c && h.ident[3] == 0x46) {
        return Err(BootError::LoadError);
    }
    if h.ident[4] != EI_CLASS_64 || h.ident[5] != EI_DATA_LSB {
        return Err(BootError::LoadError);
    }
    if h.elf_type != ET_EXEC || h.machine != EM_X86_64 {
        return Err(BootError::LoadError);
    }
    if h.phentsize as usize != PROGRAM_HEADER_BYTES {
        return Err(BootError::LoadError);
    }
    Ok(())
}

/// Reads the program header at `offset`; one that runs past the image is
/// refused.
pub fn read_program_header(bytes: &[u8], offset: u64) -> (r: Result<ProgramHeader, BootError>)
    ensures
        offset + PROGRAM_HEADER_BYTES > bytes@.len() <==> r is Err,
        r matches Ok(ph) ==> ph == spec_program_header(bytes@, offset as int),
{
    if offset > bytes.len() as u64 || bytes.len() - (offset as usize) < PROGRAM_HEADER_BYTES {
        return Err(BootError::LoadError);
    }
    let o = offset as usize;
    Ok(
        ProgramHeader {
            kind: read_le32(bytes, o),
            flags: read_le32(bytes, o + 4),
            offset: read_le64(bytes, o + 8),
            vaddr: read_le64(bytes, o + 16),
            paddr: read_le64(bytes, o + 24),
            filesz: read_le64(bytes, o + 32),
            memsz: read_le64(bytes, o + 40),
            align: read_le64(bytes, o + 48),
        },
    )
}

/// The offset of program header `index`.
pub open spec fn header_offset(h: Elf64Header, index: int) -> int {
    h.phoff + index * h.phentsize
}

/// The page range a loadable segment occupies, from its physical address.
pub open spec fn segment_pages(ph: ProgramHeader) -> (int, int) {
    let start = ph.paddr - ph.paddr % 4096;
    let end = ph.paddr + ph.memsz + 0xfff;
    (start, end - end % 4096)
}

/// Whether the arithmetic for program header `index` stays within 64
/// bits: its offset, where the header before it could be read, and the
/// page range of its segment, where it can be read and is loadable.
pub open spec fn header_fits(b: Seq<u8>, h: Elf64Header, index: int) -> bool {
    let o = header_offset(h, index);
    &&& (index == 0 || header_offset(h, index - 1) + PROGRAM_HEADER_BYTES <= b.len() ==> o <= u64::MAX)
    &&& (o + PROGRAM_HEADER_BYTES <= b.len() && spec_program_header(b, o).kind == PT_LOAD
        ==> spec_program_header(b, o).paddr + spec_program_header(b, o).memsz + 0xfff <= u64::MAX)
}

/// Whether the arithmetic over the program headers stays within 64 bits.
pub open spec fn image_fits(b: Seq<u8>, h: Elf64Header) -> bool {
    forall|index: int| 0 <= index < h.phnum ==> #[trigger] header_fits(b, h, index)
}

/// The range the loadable segments among the first `n` program headers
/// cover, as lowest start and highest end; an unreadable header refuses the
/// image.
pub open spec fn range_upto(b: Seq<u8>, h: Elf64Header, n: int) -> Result<(int, int), BootError>
    decreases n,
{
    if n <= 0 {
        Ok((u64::MAX as int, 0))
    } else {
        match range_upto(b, h, n - 1) {
            Err(e) => Err(e),
            Ok((start, end)) => {
                let o = header_offset(h, n - 1);
                if o + PROGRAM_HEADER_BYTES > b.len() {
                    Err(BootError::LoadError)
                } else {
                    let ph = spec_program_header(b, o);
                    if ph.kind != PT_LOAD {
                        Ok((start, end))
                    } else {
                        let (s, e) = segment_pages(ph);
                        Ok((if s < start { s } else { start }, if e > end { e } else { end }))
                    }
                }
            },
        }
    }
}

/// The physical page range the kernel occupies: refused when a program
/// header cannot be read, when no segment is loadable, or when the range
/// is empty.
pub open spec fn spec_image_range(b: Seq<u8>, h: Elf64Header) -> Result<(int, int), BootError> {
    match range_upto(b, h, h.phnum as int) {
        Err(e) => Err(e),
        Ok((start, end)) => if start == u64::MAX || start >= end {
            Err(BootError::LoadError)
        } else {
            Ok((start, end))
        },
    }
}

pub fn kernel_image_range(bytes: &[u8], header: &Elf64Header) -> (r: Result<(u64, u64), BootError>)
    requires
        image_fits(bytes@, *header),
    ensures
        match (r, spec_image_range(bytes@, *header)) {
            (Ok((s, e)), Ok((s2, e2))) => s == s2 && e == e2,
            (Err(x), Err(y)) => x == y,
            _ => false,
        },
{
    let mut start: u64 = u64::MAX;
    let mut end: u64 = 0;
    let mut index: u16 = 0;
    while index < header.phnum
        invariant
            image_fits(bytes@, *header),
            index <= header.phnum,
            index > 0 ==> header_offset(*header, index - 1) + PROGRAM_HEADER_BYTES <= bytes@.len(),
            range_upto(bytes@, *header, index as int) == Ok::<(int, int), BootError>((start as int, end as int)),
        decreases header.phnum - index,
    {
        assert(header_fits(bytes@, *header, index as int));
        assert((index as int) * (header.phentsize as int) <= 0xffff * 0xffff) by (nonlinear_arith)
            requires index <= 0xffff, header.phentsize <= 0xffff;
        let offset = header.phoff + (index as u64) * (header.phentsize as u64);
        let ph = match read_program_header(bytes, offset) {
            Ok(ph) => ph,
            Err(e) => {
                proof {
                    lemma_range_error_stays(bytes@, *header, index as int + 1, header.phnum as int);
                }
                return Err(e);
            },
        };
        if ph.kind == PT_LOAD {
            assert(ph.paddr + ph.memsz + 0xfff <= u64::MAX);
            let paddr: u64 = ph.paddr;
            let seg_start = paddr & !0xfffu64;
            let last = paddr + ph.memsz + 0xfff;
            let seg_end = last & !0xfffu64;
            assert(seg_start == paddr - paddr % 4096) by (bit_vector)
                requires
                    seg_start == paddr & !0xfffu64,
            ;
            assert(seg_end == last - last % 4096) by (bit_vector)
                requires
                    seg_end == last & !0xfffu64,
            ;
            if seg_start < start {
                start = seg_start;
            }
            if seg_end > end {
                end = seg_end;
            }
        }
        index += 1;
    }
    if start == u64::MAX || start >= end {
        return Err(BootError::LoadError);
    }
    Ok((start, end))
}

proof fn lemma_range_error_stays(b: Seq<u8>, h: Elf64Header, from: int, to: int)
    requires
        0 < from <= to,
        range_upto(b, h, from) is Err,
    ensures
        range_upto(b, h, to) == range_upto(b, h, from),
    decreases to - from,
{
    if from < to {
        lemma_range_error_stays(b, h, from, to - 1);
    }
}

/// What a loadable segment asks to be copied: the memory from its physical
/// address, zeroed for `memory_size` bytes, then the file bytes from
/// `file_start` to `file_end` at its start.
#[derive(Clone, Copy, Debug, PartialEq, Eq, Structural)]
pub struct SegmentCopy {
    pub physical_address: u64,
    pub memory_size: u64,
    pub file_start: usize,
    pub file_end: usize,
}

/// The copy a segment asks for; refused when its file bytes run past the
/// image or it occupies less memory than file.
pub open spec fn spec_segment_copy(len: int, ph: ProgramHeader) -> Result<SegmentCopy, BootError> {
    if ph.offset + ph.filesz > usize::MAX || ph.offset + ph.filesz > len || ph.memsz < ph.filesz {
        Err(BootError::LoadError)
    } else {
        Ok(
            SegmentCopy {
                physical_address: ph.paddr,
                memory_size: ph.memsz,
                file_start: ph.offset as usize,
                file_end: (ph.offset + ph.filesz) as usize,
            },
        )
    }
}

pub fn segment_copy(bytes: &[u8], ph: &ProgramHeader) -> (r: Result<SegmentCopy, BootError>)
    ensures
        r == spec_segment_copy(bytes@.len() as int, *ph),
{
    if ph.offset > usize::MAX as u64 || ph.filesz > (usize::MAX as u64) - ph.offset {
        return Err(BootError::LoadError);
    }
    let file_start = ph.offset as usize;
    let file_end = file_start + ph.filesz as usize;
    if file_end > bytes.len() || ph.memsz < ph.filesz {
        return Err(BootError::LoadError);
    }
    Ok(SegmentCopy { physical_address: ph.paddr, memory_size: ph.memsz, file_start, file_end })
}

/// Decides `image_fits`: whether reading the program headers of an image
/// keeps every offset and segment range within 64 bits.
pub fn image_fits_check(bytes: &[u8], header: &Elf64Header) -> (r: bool)
    ensures
        r == image_fits(bytes@, *header),
{
    let mut index: u16 = 0;
    while index < header.phnum
        invariant
            index <= header.phnum,
            index > 0 ==> header_offset(*header, index - 1) + PROGRAM_HEADER_BYTES <= bytes@.len(),
            forall|j: int| 0 <= j < index ==> #[trigger] header_fits(bytes@, *header, j),
        decreases header.phnum - index,
    {
        assert((index as int) * (header.phentsize as int) <= 0xffff * 0xffff) by (nonlinear_arith)
            requires index <= 0xffff, header.phentsize <= 0xffff;
        let step = (index as u64) * (header.phentsize as u64);
        if header.phoff > u64::MAX - step {
            assert(!header_fits(bytes@, *header, index as int));
            return false;
        }
        let offset = header.phoff + step;
        match read_program_header(bytes, offset) {
            Ok(ph) => {
                if ph.kind == PT_LOAD {
                    let paddr: u64 = ph.paddr;
                    if paddr > u64::MAX - 0xfff || ph.memsz > u64::MAX - 0xfff - paddr {
                        assert(!header_fits(bytes@, *header, index as int));
                        return false;
                    }
                }
            },
            Err(_) => {
                proof {
                    let j = index as int;
                    assert forall|k: int| j <= k < header.phnum implies #[trigger] header_fits(bytes@, *header, k) by {
                        if k > j {
                            assert((k - 1) * header.phentsize >= j * header.phentsize) by (nonlinear_arith)
                                requires k > j, header.phentsize >= 0;
                            assert(k * header.phentsize >= j * header.phentsize) by (nonlinear_arith)
                                requires k > j, header.phentsize >= 0;
                        }
                    }
                }
                return true;
            },
        }
        index += 1;
    }
    true
}

/// The copies the loadable segments among the first `n` program headers
/// ask for, in header order; an unreadable header or a refused segment
/// refuses the image.
pub open spec fn segments_upto(b: Seq<u8>, h: Elf64Header, n: int) -> Result<Seq<SegmentCopy>, BootError>
    decreases n,
{
    if n <= 0 {
        Ok(Seq::empty())
    } else {
        match segments_upto(b, h, n - 1) {
            Err(e) => Err(e),
            Ok(copies) => {
                let o = header_offset(h, n - 1);
                if o + PROGRAM_HEADER_BYTES > b.len() {
                    Err(BootError::LoadError)
                } else {
                    let ph = spec_program_header(b, o);
                    if ph.kind != PT_LOAD {
                        Ok(copies)
                    } else {
                        match spec_segment_copy(b.len() as int, ph) {
                            Err(e) => Err(e),
                            Ok(c) => Ok(copies.push(c)),
                        }
                    }
                }
            },
        }
    }
}

/// Everything the bootloader does with an image before it touches memory:
/// the kernel's entry, the first page of its range, how many pages the
/// range holds, and the copy each loadable segment asks for.
pub struct LoadPlan {
    pub kernel: LoadedKernel,
    pub image_start: u64,
    pub pages: u64,
    pub segments: Vec<SegmentCopy>,
}

/// The plan for an image with header `h`, as entry, first page, page
/// count and segment copies.
pub open spec fn spec_load_plan(b: Seq<u8>, h: Elf64Header) -> Result<(u64, int, int, Seq<SegmentCopy>), BootError> {
    if !spec_header_valid(h) {
        Err(BootError::LoadError)
    } else {
        match spec_image_range(b, h) {
            Err(e) => Err(e),
            Ok((start, end)) => match segments_upto(b, h, h.phnum as int) {
                Err(e) => Err(e),
                Ok(copies) => Ok((h.entry, start, (end - start) / 4096, copies)),
            },
        }
    }
}

/// Whether the program headers of a valid image keep their arithmetic
/// within 64 bits.
pub open spec fn load_fits(b: Seq<u8>) -> bool {
    forall|h: Elf64Header| #[trigger] header_matches(h, b) && spec_header_valid(h) ==> image_fits(b, h)
}

/// An image determines its header.
proof fn lemma_header_unique(b: Seq<u8>, header: Elf64Header)
    requires
        header_matches(header, b),
    ensures
        forall|h: Elf64Header| #[trigger] header_matches(h, b) ==> h == header,
{
    assert forall|h: Elf64Header| #[trigger] header_matches(h, b) implies h == header by {
        assert(h.ident =~= header.ident);
    }
}

proof fn lemma_segments_error_stays(b: Seq<u8>, h: Elf64Header, from: int, to: int)
    requires
        0 < from <= to,
        segments_upto(b, h, from) is Err,
    ensures
        segments_upto(b, h, to) == segments_upto(b, h, from),
    decreases to - from,
{
    if from < to {
        lemma_segments_error_stays(b, h, from, to - 1);
    }
}

/// Plans loading the kernel image `bytes`: refused when it is shorter
/// than a header, when the header is not that of an x86-64 executable,
/// when a program header cannot be read, when no segment is loadable, and
/// when a segment's file bytes run past the image or exceed its memory.
pub fn load_plan(bytes: &[u8]) -> (r: Result<LoadPlan, BootError>)
    requires
        load_fits(bytes@),
    ensures
        bytes@.len() < HEADER_BYTES ==> r is Err,
        forall|h: Elf64Header|
            bytes@.len() >= HEADER_BYTES && #[trigger] header_matches(h, bytes@) ==> match (r, spec_load_plan(bytes@, h)) {
                (Ok(p), Ok((entry, start, pages, copies))) => p.kernel.entry == entry && p.image_start
                    == start && p.pages == pages && p.segments@ == copies,
                (Err(x), Err(y)) => x == y,
                _ => false,
            },
{
    let header = read_header(bytes)?;
    proof {
        lemma_header_unique(bytes@, header);
    }
    if let Err(e) = validate_header(&header) {
        return Err(e);
    }
    assert(header_matches(header, bytes@) && spec_header_valid(header));
    assert(image_fits(bytes@, header));
    let (image_start, image_end) = kernel_image_range(bytes, &header)?;
    let pages: u64 = (image_end - image_start) / 4096;
    let mut segments: Vec<SegmentCopy> = Vec::new();
    let mut index: u16 = 0;
    while index < header.phnum
        invariant
            image_fits(bytes@, header),
            header_matches(header, bytes@),
            spec_header_valid(header),
            spec_image_range(bytes@, header) == Ok::<(int, int), BootError>((image_start as int, image_end as int)),
            pages == (image_end - image_start) / 4096,
            forall|h: Elf64Header| #[trigger] header_matches(h, bytes@) ==> h == header,
            index <= header.phnum,
            index > 0 ==> header_offset(header, index - 1) + PROGRAM_HEADER_BYTES <= bytes@.len(),
            segments_upto(bytes@, header, index as int) == Ok::<Seq<SegmentCopy>, BootError>(segments@),
        decreases header.phnum - index,
    {
        assert(header_fits(bytes@, header, index as int));
        assert((index as int) * (header.phentsize as int) <= 0xffff * 0xffff) by (nonlinear_arith)
            requires index <= 0xffff, header.phentsize <= 0xffff;
        let offset = header.phoff + (index as u64) * (header.phentsize as u64);
        let ph = match read_program_header(bytes, offset) {
            Ok(ph) => ph,
            Err(e) => {
                proof {
                    lemma_segments_error_stays(bytes@, header, index as int + 1, header.phnum as int);
                }
                return Err(e);
            },
        };
        assert(ph == spec_program_header(bytes@, header_offset(header, index as int)));
        if ph.kind == PT_LOAD {
            match segment_copy(bytes, &ph) {
                Ok(c) => segments.push(c),
                Err(e) => {
                    proof {
                        lemma_segments_error_stays(bytes@, header, index as int + 1, header.phnum as int);
                    }
                    return Err(e);
                },
            }
        }
        index += 1;
    }
    Ok(LoadPlan { kernel: LoadedKernel { entry: header.entry }, image_start, pages, segments })
}

/// The firmware's memory types, by their numbers in the UEFI memory map.
pub const MEMORY_LOADER_CODE: u32 = 1;
pub const MEMORY_LOADER_DATA: u32 = 2;
pub const MEMORY_BOOT_SERVICES_CODE: u32 = 3;
pub const MEMORY_BOOT_SERVICES_DATA: u32 = 4;
pub const MEMORY_CONVENTIONAL: u32 = 7;
pub const MEMORY_ACPI_RECLAIM: u32 = 9;
pub const MEMORY_ACPI_NON_VOLATILE: u32 = 10;
pub const MEMORY_MMIO: u32 = 11;
pub const MEMORY_MMIO_PORT_SPACE: u32 = 12;
pub const MEMORY_PAL_CODE: u32 = 13;

/// The kind the kernel sees for a firmware memory type. Boot-services
/// memory stays reserved: the kernel cannot yet tell that nothing of the
/// firmware still refers to it.
pub open spec fn spec_classify_memory(kind: u32) -> MemoryRegionKind {
    if kind == MEMORY_CONVENTIONAL {
        MemoryRegionKind::Usable
    } else if kind == MEMORY_LOADER_CODE || kind == MEMORY_LOADER_DATA {
        MemoryRegionKind::Bootloader
    } else if kind == MEMORY_ACPI_RECLAIM || kind == MEMORY_ACPI_NON_VOLATILE {
        MemoryRegionKind::Acpi
    } else if kind == MEMORY_MMIO || kind == MEMORY_MMIO_PORT_SPACE || kind == MEMORY_PAL_CODE {
        MemoryRegionKind::Mmio
    } else {
        MemoryRegionKind::Reserved
    }
}

pub fn classify_memory(kind: u32) -> (r: MemoryRegionKind)
    ensures
        r == spec_classify_memory(kind),
{
    if kind == MEMORY_CONVENTIONAL {
        MemoryRegionKind::Usable
    } else if kind == MEMORY_LOADER_CODE || kind == MEMORY_LOADER_DATA {
        MemoryRegionKind::Bootloader
    } else if kind == MEMORY_BOOT_SERVICES_CODE || kind == MEMORY_BOOT_SERVICES_DATA {
        MemoryRegionKind::Reserved
    } else if kind == MEMORY_ACPI_RECLAIM || kind == MEMORY_ACPI_NON_VOLATILE {
        MemoryRegionKind::Acpi
    } else if kind == MEMORY_MMIO || kind == MEMORY_MMIO_PORT_SPACE || kind == MEMORY_PAL_CODE {
        MemoryRegionKind::Mmio
    } else {
        MemoryRegionKind::Reserved
    }
}

/// One entry of the firmware memory map.
#[derive(Clone, Copy, Debug, PartialEq, Eq, Structural)]
pub struct MemoryDescriptor {
    pub kind: u32,
    pub phys_start: u64,
    pub page_count: u64,
}

/// The region the kernel sees for a firmware map entry.
pub open spec fn spec_region(d: MemoryDescriptor) -> MemoryRegion {
    MemoryRegion {
        start: d.phys_start,
        size: (d.page_count * 4096) as u64,
        kind: spec_classify_memory(d.kind),
    }
}

/// Copies the firmware memory map into the boot information, as many
/// entries as it has room for; the regions past them are left as they
/// were.
pub fn fill_memory_map(boot_info: &mut BootInfo, map: &[MemoryDescriptor])
    requires
        old(boot_info).memory_map.regions@.len() == MAX_MEMORY_REGIONS,
        forall|i: int|
            0 <= i < map@.len() && i < MAX_MEMORY_REGIONS ==> #[trigger] map@[i].page_count * 4096 <= u64::MAX,
    ensures
        ({
            let n = if map@.len() < MAX_MEMORY_REGIONS { map@.len() as int } else { MAX_MEMORY_REGIONS as int };
            &&& final(boot_info).memory_map.region_count == n
            &&& final(boot_info).memory_map.regions@.len() == MAX_MEMORY_REGIONS
            &&& forall|i: int| 0 <= i < n ==> #[trigger] final(boot_info).memory_map.regions@[i] == spec_region(map@[i])
            &&& forall|i: int|
                n <= i < MAX_MEMORY_REGIONS ==> #[trigger] final(boot_info).memory_map.regions@[i]
                    == old(boot_info).memory_map.regions@[i]
        }),
        final(boot_info).magic == old(boot_info).magic,
        final(boot_info).version == old(boot_info).version,
        final(boot_info).bootloader_version == old(boot_info).bootloader_version,
        final(boot_info).framebuffer == old(boot_info).framebuffer,
        final(boot_info).initrd == old(boot_info).initrd,
        final(boot_info).cmdline_len == old(boot_info).cmdline_len,
        final(boot_info).cmdline == old(boot_info).cmdline,
{
    let mut count: usize = 0;
    while count < map.len() && count < MAX_MEMORY_REGIONS
        invariant
            count <= map@.len(),
            count <= MAX_MEMORY_REGIONS,
            boot_info.memory_map.regions@.len() == MAX_MEMORY_REGIONS,
            forall|i: int|
                0 <= i < map@.len() && i < MAX_MEMORY_REGIONS ==> #[trigger] map@[i].page_count * 4096 <= u64::MAX,
            forall|i: int| 0 <= i < count ==> #[trigger] boot_info.memory_map.regions@[i] == spec_region(map@[i]),
            forall|i: int|
                count <= i < MAX_MEMORY_REGIONS ==> #[trigger] boot_info.memory_map.regions@[i]
                    == old(boot_info).memory_map.regions@[i],
            boot_info.magic == old(boot_info).magic,
            boot_info.version == old(boot_info).version,
            boot_info.bootloader_version == old(boot_info).bootloader_version,
            boot_info.framebuffer == old(boot_info).framebuffer,
            boot_info.initrd == old(boot_info).initrd,
            boot_info.cmdline_len == old(boot_info).cmdline_len,
            boot_info.cmdline == old(boot_info).cmdline,
        decreases map@.len() - count,
    {
        let d = map[count];
        assert(map@[count as int].page_count * 4096 <= u64::MAX);
        boot_info.memory_map.regions[count] = MemoryRegion {
            start: d.phys_start,
            size: d.page_count * 4096,
            kind: classify_memory(d.kind),
        };
        count += 1;
    }
    boot_info.memory_map.region_count = count as u64;
}

} // verus!
