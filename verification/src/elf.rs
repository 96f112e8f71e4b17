//! Bounded ELF64 executable parsing for user images.
use vstd::prelude::*;
use crate::wire::{le16, le32, le64, read_le16, read_le32, read_le64};

verus! {

pub const ELF_HEADER_SIZE: usize = 64;
pub const PROGRAM_HEADER_SIZE: usize = 56;
pub const PT_LOAD: u32 = 1;
pub const ET_EXEC: u16 = 2;
pub const EM_X86_64: u16 = 62;
pub const MAX_PROGRAM_HEADERS: usize = 16;

pub const FLAG_EXECUTE: u32 = 1;
pub const FLAG_WRITE: u32 = 2;
pub const FLAG_READ: u32 = 4;

#[derive(Clone, Copy, Debug, PartialEq, Eq, Structural)]
pub enum ElfError {
    Truncated,
    InvalidMagic,
    Unsupported,
    InvalidHeaders,
    InvalidSegment,
}

/// One loadable segment; `file_data` borrows the image.
#[derive(Clone, Copy)]
pub struct Segment<'a> {
    pub file_offset: u64,
    pub virtual_address: u64,
    pub memory_size: u64,
    pub flags: u32,
    pub align: u64,
    pub file_data: &'a [u8],
}

/// What a valid program header describes.
pub ghost struct SegmentInfo {
    pub file_offset: u64,
    pub virtual_address: u64,
    pub memory_size: u64,
    pub flags: u32,
    pub align: u64,
    pub data: Seq<u8>,
}

pub open spec fn is_pow2(v: u64) -> bool {
    v != 0 && v & ((v - 1) as u64) == 0
}

/// The checks of one `PT_LOAD` header at `off`, in the order they are made.
pub open spec fn spec_read_segment(b: Seq<u8>, off: int) -> Result<SegmentInfo, ElfError> {
    if off + 16 > b.len() {
        Err(ElfError::Truncated)
    } else if le64(b, off + 8) > usize::MAX {
        Err(ElfError::InvalidSegment)
    } else if off + 40 > b.len() {
        Err(ElfError::Truncated)
    } else if le64(b, off + 32) > usize::MAX {
        Err(ElfError::InvalidSegment)
    } else if off + 56 > b.len() {
        Err(ElfError::Truncated)
    } else {
        let raw = le64(b, off + 8);
        let file_size = le64(b, off + 32);
        let memory_size = le64(b, off + 40);
        let align = le64(b, off + 48);
        if memory_size == 0 || memory_size < file_size || !is_pow2(align as u64) {
            Err(ElfError::InvalidSegment)
        } else if raw + file_size > usize::MAX {
            Err(ElfError::InvalidSegment)
        } else if raw + file_size > b.len() {
            Err(ElfError::Truncated)
        } else {
            Ok(
                SegmentInfo {
                    file_offset: raw as u64,
                    virtual_address: le64(b, off + 16) as u64,
                    memory_size: memory_size as u64,
                    flags: le32(b, off + 4) as u32,
                    align: align as u64,
                    data: b.subrange(raw, raw + file_size),
                },
            )
        }
    }
}

/// Offset of program header `i`.
pub open spec fn header_offset(po: int, i: int) -> int {
    po + i * PROGRAM_HEADER_SIZE
}

/// Header `i` ends the search: its type cannot be read, or it is `PT_LOAD`.
pub open spec fn stops_at(b: Seq<u8>, po: int, i: int) -> bool {
    header_offset(po, i) + 4 > b.len() || le32(b, header_offset(po, i)) == PT_LOAD
}

/// The first stopping header at or after `from`, or `count`.
pub open spec fn next_stop(b: Seq<u8>, po: int, count: int, from: int) -> int
    decreases count - from,
{
    if from >= count {
        count
    } else if stops_at(b, po, from) {
        from
    } else {
        next_stop(b, po, count, from + 1)
    }
}

/// What the item at a stopping header is.
pub open spec fn item_at(b: Seq<u8>, po: int, i: int) -> Result<SegmentInfo, ElfError> {
    if header_offset(po, i) + 4 > b.len() {
        Err(ElfError::Truncated)
    } else {
        spec_read_segment(b, header_offset(po, i))
    }
}

/// Walks headers `from..count`: the number of load segments, or the first error.
pub open spec fn walk(b: Seq<u8>, po: int, count: int, from: int) -> Result<nat, ElfError>
    decreases count - from,
{
    if from >= count {
        Ok(0)
    } else if !stops_at(b, po, from) {
        walk(b, po, count, from + 1)
    } else {
        match item_at(b, po, from) {
            Err(e) => Err(e),
            Ok(_) => match walk(b, po, count, from + 1) {
                Ok(n) => Ok(n + 1),
                Err(e) => Err(e),
            },
        }
    }
}

/// The ELF identification and file header checks, in order: the entry point,
/// program-table offset and program-header count of an acceptable header.
pub open spec fn spec_header(b: Seq<u8>) -> Result<(u64, int, int), ElfError> {
    if b.len() < ELF_HEADER_SIZE {
        Err(ElfError::Truncated)
    } else if b[0] != 0x7f || b[1] != 0x45 || b[2] != 0x4c || b[3] != 0x46 {
        Err(ElfError::InvalidMagic)
    } else if b[4] != 2 || b[5] != 1 || b[6] != 1 || le16(b, 16) != ET_EXEC || le16(b, 18)
        != EM_X86_64 || le32(b, 20) != 1 {
        Err(ElfError::Unsupported)
    } else if le16(b, 52) != ELF_HEADER_SIZE || le16(b, 54) != PROGRAM_HEADER_SIZE {
        Err(ElfError::InvalidHeaders)
    } else if le64(b, 32) > usize::MAX {
        Err(ElfError::InvalidHeaders)
    } else if le64(b, 24) == 0 || le64(b, 32) < ELF_HEADER_SIZE || le16(b, 56) == 0 || le16(b, 56)
        > MAX_PROGRAM_HEADERS {
        Err(ElfError::InvalidHeaders)
    } else if le64(b, 32) + le16(b, 56) * PROGRAM_HEADER_SIZE > usize::MAX {
        Err(ElfError::InvalidHeaders)
    } else if le64(b, 32) + le16(b, 56) * PROGRAM_HEADER_SIZE > b.len() {
        Err(ElfError::Truncated)
    } else {
        Ok((le64(b, 24) as u64, le64(b, 32), le16(b, 56)))
    }
}

/// The outcome of parsing `b`: the accepted header, or the first error.
pub open spec fn spec_parse(b: Seq<u8>) -> Result<(u64, int, int), ElfError> {
    match spec_header(b) {
        Err(e) => Err(e),
        Ok((entry, po, count)) => match walk(b, po, count, 0) {
            Err(e) => Err(e),
            Ok(n) => if n == 0 {
                Err(ElfError::InvalidSegment)
            } else {
                Ok((entry, po, count))
            },
        },
    }
}

pub struct ElfImage<'a> {
    bytes: &'a [u8],
    entry: u64,
    program_offset: usize,
    program_count: usize,
}

pub struct SegmentIter<'a> {
    bytes: &'a [u8],
    next: usize,
    program_offset: usize,
    program_count: usize,
}

/// `s` describes `info`.
pub open spec fn describes(s: Segment, info: SegmentInfo) -> bool {
    &&& s.file_offset == info.file_offset
    &&& s.virtual_address == info.virtual_address
    &&& s.memory_size == info.memory_size
    &&& s.flags == info.flags
    &&& s.align == info.align
    &&& s.file_data@ == info.data
}

fn read_segment<'a>(bytes: &'a [u8], offset: usize) -> (r: Result<Segment<'a>, ElfError>)
    ensures
        match (r, spec_read_segment(bytes@, offset as int)) {
            (Ok(s), Ok(info)) => describes(s, info),
            (Err(e), Err(f)) => e == f,
            _ => false,
        },
{
    let len = bytes.len();
    if len < 16 || offset > len - 16 {
        return Err(ElfError::Truncated);
    }
    let raw_file_offset = read_le64(bytes, offset + 8);
    if raw_file_offset > usize::MAX as u64 {
        return Err(ElfError::InvalidSegment);
    }
    if len < 40 || offset > len - 40 {
        return Err(ElfError::Truncated);
    }
    let raw_file_size = read_le64(bytes, offset + 32);
    if raw_file_size > usize::MAX as u64 {
        return Err(ElfError::InvalidSegment);
    }
    if len < 56 || offset > len - 56 {
        return Err(ElfError::Truncated);
    }
    let flags = read_le32(bytes, offset + 4);
    let virtual_address = read_le64(bytes, offset + 16);
    let memory_size = read_le64(bytes, offset + 40);
    let align = read_le64(bytes, offset + 48);
    let file_offset = raw_file_offset as usize;
    let file_size = raw_file_size as usize;
    if memory_size == 0 || memory_size < raw_file_size || align == 0 || align & (align - 1) != 0 {
        return Err(ElfError::InvalidSegment);
    }
    if file_offset > usize::MAX - file_size {
        return Err(ElfError::InvalidSegment);
    }
    let file_end = file_offset + file_size;
    if file_end > len {
        return Err(ElfError::Truncated);
    }
    Ok(
        Segment {
            file_offset: raw_file_offset,
            virtual_address,
            memory_size,
            flags,
            align,
            file_data: &bytes[file_offset..file_end],
        },
    )
}

impl<'a> SegmentIter<'a> {
    pub closed spec fn position(&self) -> int {
        self.next as int
    }

    pub closed spec fn count(&self) -> int {
        self.program_count as int
    }

    pub closed spec fn table(&self) -> int {
        self.program_offset as int
    }

    pub closed spec fn data(&self) -> Seq<u8> {
        self.bytes@
    }

    pub closed spec fn wf(&self) -> bool {
        &&& self.next <= self.program_count <= MAX_PROGRAM_HEADERS
        &&& self.program_offset + self.program_count * PROGRAM_HEADER_SIZE <= usize::MAX
    }

    /// The next `PT_LOAD` segment, or the error that stops at a header.
    pub fn next(&mut self) -> (r: Option<Result<Segment<'a>, ElfError>>)
        requires
            old(self).wf(),
        ensures
            final(self).wf(),
            final(self).data() == old(self).data(),
            final(self).table() == old(self).table(),
            final(self).count() == old(self).count(),
            ({
                let j = next_stop(old(self).data(), old(self).table(), old(self).count(), old(self).position());
                &&& j == old(self).count() ==> r is None && final(self).position() == j
                &&& j < old(self).count() ==> final(self).position() == j + 1 && match (r, item_at(old(self).data(), old(self).table(), j)) {
                    (Some(Ok(s)), Ok(info)) => describes(s, info),
                    (Some(Err(e)), Err(f)) => e == f,
                    _ => false,
                }
            }),
    {
        while self.next < self.program_count
            invariant
                self.wf(),
                self.bytes@ == old(self).bytes@,
                self.program_offset == old(self).program_offset,
                self.program_count == old(self).program_count,
                old(self).next <= self.next,
                next_stop(self.bytes@, self.program_offset as int, self.program_count as int, old(self).next as int)
                    == next_stop(self.bytes@, self.program_offset as int, self.program_count as int, self.next as int),
            decreases self.program_count - self.next,
        {
            let offset = self.program_offset + self.next * PROGRAM_HEADER_SIZE;
            self.next += 1;
            if offset > self.bytes.len() || self.bytes.len() - offset < 4 {
                return Some(Err(ElfError::Truncated));
            }
            let kind = read_le32(self.bytes, offset);
            if kind == PT_LOAD {
                return Some(read_segment(self.bytes, offset));
            }
        }
        None
    }
}

impl<'a> ElfImage<'a> {
    pub closed spec fn data(&self) -> Seq<u8> {
        self.bytes@
    }

    pub closed spec fn spec_entry(&self) -> u64 {
        self.entry
    }

    pub closed spec fn table(&self) -> int {
        self.program_offset as int
    }

    pub closed spec fn count(&self) -> int {
        self.program_count as int
    }

    pub closed spec fn wf(&self) -> bool {
        &&& self.program_count <= MAX_PROGRAM_HEADERS
        &&& self.program_offset + self.program_count * PROGRAM_HEADER_SIZE <= usize::MAX
    }

    /// Accepts a little-endian x86-64 executable with at most 16 program
    /// headers inside the image and at least one well-formed load segment.
    pub fn parse(bytes: &'a [u8]) -> (r: Result<Self, ElfError>)
        ensures
            match (r, spec_parse(bytes@)) {
                (Ok(image), Ok((entry, po, count))) => image.wf() && image.data() == bytes@
                    && image.spec_entry() == entry && image.table() == po && image.count() == count,
                (Err(e), Err(f)) => e == f,
                _ => false,
            },
    {
        let len = bytes.len();
        if len < ELF_HEADER_SIZE {
            return Err(ElfError::Truncated);
        }
        if bytes[0] != 0x7f || bytes[1] != 0x45 || bytes[2] != 0x4c || bytes[3] != 0x46 {
            return Err(ElfError::InvalidMagic);
        }
        if bytes[4] != 2 || bytes[5] != 1 || bytes[6] != 1 || read_le16(bytes, 16) != ET_EXEC
            || read_le16(bytes, 18) != EM_X86_64 || read_le32(bytes, 20) != 1 {
            return Err(ElfError::Unsupported);
        }
        if read_le16(bytes, 52) as usize != ELF_HEADER_SIZE || read_le16(bytes, 54) as usize
            != PROGRAM_HEADER_SIZE {
            return Err(ElfError::InvalidHeaders);
        }
        let entry = read_le64(bytes, 24);
        let raw_offset = read_le64(bytes, 32);
        if raw_offset > usize::MAX as u64 {
            return Err(ElfError::InvalidHeaders);
        }
        let program_offset = raw_offset as usize;
        let program_count = read_le16(bytes, 56) as usize;
        if entry == 0 || program_offset < ELF_HEADER_SIZE || program_count == 0 || program_count
            > MAX_PROGRAM_HEADERS {
            return Err(ElfError::InvalidHeaders);
        }
        let table_size = program_count * PROGRAM_HEADER_SIZE;
        if program_offset > usize::MAX - table_size {
            return Err(ElfError::InvalidHeaders);
        }
        let table_end = program_offset + table_size;
        if table_end > len {
            return Err(ElfError::Truncated);
        }
        let image = Self { bytes, entry, program_offset, program_count };
        let mut segments = image.segments();
        let mut load_segments: usize = 0;
        let ghost po = program_offset as int;
        let ghost count = program_count as int;
        loop
            invariant
                segments.wf(),
                segments.data() == bytes@,
                segments.table() == po,
                segments.count() == count,
                0 <= segments.position() <= count,
                load_segments <= segments.position(),
                spec_header(bytes@) == Ok::<(u64, int, int), ElfError>((entry, po, count)),
                walk(bytes@, po, count, 0) == match walk(bytes@, po, count, segments.position()) {
                    Ok(n) => Ok::<nat, ElfError>((n + load_segments) as nat),
                    Err(e) => Err(e),
                },
            ensures
                spec_header(bytes@) == Ok::<(u64, int, int), ElfError>((entry, po, count)),
                walk(bytes@, po, count, 0) == Ok::<nat, ElfError>(load_segments as nat),
            decreases count - segments.position(),
        {
            let ghost from = segments.position();
            proof {
                lemma_walk_skips(bytes@, po, count, from);
            }
            let ghost j = next_stop(bytes@, po, count, from);
            match segments.next() {
                None => {
                    assert(walk(bytes@, po, count, count) == Ok::<nat, ElfError>(0));
                    break;
                },
                Some(Err(error)) => {
                    assert(walk(bytes@, po, count, j) == Err::<nat, ElfError>(error));
                    return Err(error);
                },
                Some(Ok(_)) => {
                    assert(item_at(bytes@, po, j) is Ok);
                    load_segments += 1;
                },
            }
        }
        if load_segments == 0 {
            return Err(ElfError::InvalidSegment);
        }
        Ok(image)
    }

    pub fn entry(&self) -> (r: u64)
        ensures
            r == self.spec_entry(),
    {
        self.entry
    }

    pub fn byte_len(&self) -> (r: usize)
        ensures
            r == self.data().len(),
    {
        self.bytes.len()
    }

    /// Iterates the load segments from the first program header.
    pub fn segments(&self) -> (r: SegmentIter<'a>)
        requires
            self.wf(),
        ensures
            r.wf(),
            r.data() == self.data(),
            r.table() == self.table(),
            r.count() == self.count(),
            r.position() == 0,
    {
        SegmentIter {
            bytes: self.bytes,
            next: 0,
            program_offset: self.program_offset,
            program_count: self.program_count,
        }
    }
}

/// Headers before the next stop contribute nothing to the walk.
proof fn lemma_walk_skips(b: Seq<u8>, po: int, count: int, from: int)
    requires
        0 <= from <= count,
    ensures
        walk(b, po, count, from) == walk(b, po, count, next_stop(b, po, count, from)),
        from <= next_stop(b, po, count, from) <= count,
        next_stop(b, po, count, from) < count ==> stops_at(b, po, next_stop(b, po, count, from)),
    decreases count - from,
{
    if from < count && !stops_at(b, po, from) {
        lemma_walk_skips(b, po, count, from + 1);
    }
}

} // verus!
