//! The boot ramdisk: a `GRD1` image of named files, read in place.
use vstd::prelude::*;
use vstd::utf8::valid_utf8;
use vstd::string::StringSliceAdditionalSpecFns;
use crate::strings::utf8_str;
use crate::wire::{le16, le32, read_le16, read_le32};

verus! {

/// The image magic, `GRD1`.
pub open spec fn ramfs_magic() -> Seq<u8> {
    seq![71u8, 82, 68, 49]
}

#[derive(Clone, Copy)]
pub struct File<'a> {
    pub name: &'a str,
    pub data: &'a [u8],
}

pub struct RamFs<'a> {
    bytes: &'a [u8],
    count: usize,
}

pub struct RamFsIter<'a> {
    bytes: &'a [u8],
    remaining: usize,
    offset: usize,
}

/// The entry at `offset`: a 16-bit name length, a 32-bit data length, the
/// name and the data, as the name's start, the name's end and the data's
/// end; `None` when it overruns the image.
pub open spec fn spec_entry(bytes: Seq<u8>, offset: int) -> Option<(int, int, int)> {
    if offset + 6 > bytes.len() {
        None
    } else {
        let name_start = offset + 6;
        let name_end = name_start + le16(bytes, offset);
        let data_end = name_end + le32(bytes, offset + 2);
        if name_end > usize::MAX || data_end > usize::MAX || data_end > bytes.len() {
            None
        } else {
            Some((name_start, name_end, data_end))
        }
    }
}

/// The name bytes of the entry at `offset`.
pub open spec fn entry_name(bytes: Seq<u8>, offset: int) -> Seq<u8> {
    let (ns, ne, de) = spec_entry(bytes, offset)->0;
    bytes.subrange(ns, ne)
}

impl<'a> RamFs<'a> {
    pub closed spec fn image(&self) -> Seq<u8> {
        self.bytes@
    }

    pub closed spec fn spec_count(&self) -> int {
        self.count as int
    }

    /// Reads the image header: an image shorter than the header or without
    /// the magic holds no files; otherwise the header gives the count.
    pub fn from_image(bytes: &'a [u8]) -> (fs: Self)
        ensures
            bytes@.len() < 8 || bytes@.subrange(0, 4) != ramfs_magic() ==> fs.image() == Seq::<u8>::empty()
                && fs.spec_count() == 0,
            !(bytes@.len() < 8 || bytes@.subrange(0, 4) != ramfs_magic()) ==> fs.image() == bytes@
                && fs.spec_count() == le32(bytes@, 4),
    {
        let empty: &[u8] = &[];
        if bytes.len() < 8 || !crate::strings::bytes_equal(&bytes[0..4], [71u8, 82, 68, 49].as_slice()) {
            proof {
                assert([71u8, 82, 68, 49]@ =~= ramfs_magic());
            }
            return RamFs { bytes: empty, count: 0 };
        }
        proof {
            assert([71u8, 82, 68, 49]@ =~= ramfs_magic());
        }
        let count = read_le32(bytes, 4) as usize;
        RamFs { bytes, count }
    }

    pub fn count(&self) -> (r: usize)
        ensures
            r == self.spec_count(),
    {
        self.count
    }

    /// The files in image order, from the first entry after the header.
    pub fn iter(&self) -> (it: RamFsIter<'a>)
        ensures
            it.image() == self.image(),
            it.remaining() == self.spec_count(),
            it.offset() == 8,
    {
        RamFsIter { bytes: self.bytes, remaining: self.count, offset: 8 }
    }
}

impl<'a> RamFsIter<'a> {
    pub closed spec fn image(&self) -> Seq<u8> {
        self.bytes@
    }

    pub closed spec fn remaining(&self) -> int {
        self.remaining as int
    }

    pub closed spec fn offset(&self) -> int {
        self.offset as int
    }

    /// The next file. Iteration stops, leaving the position where it is,
    /// once the count is used up, at an entry that overruns the image, or
    /// at a name that is not UTF-8; a UTF-8 name is always accepted.
    pub fn next(&mut self) -> (r: Option<File<'a>>)
        ensures
            final(self).image() == old(self).image(),
            r is None ==> final(self).remaining() == old(self).remaining() && final(self).offset() == old(
                self,
            ).offset(),
            old(self).remaining() == 0 || spec_entry(old(self).image(), old(self).offset()) is None
                ==> r is None,
            r is Some ==> ({
                let (ns, ne, de) = spec_entry(old(self).image(), old(self).offset())->0;
                &&& old(self).remaining() > 0
                &&& spec_entry(old(self).image(), old(self).offset()) is Some
                &&& r->0.name.spec_bytes() == old(self).image().subrange(ns, ne)
                &&& r->0.data@ == old(self).image().subrange(ne, de)
                &&& final(self).offset() == de
                &&& final(self).remaining() == old(self).remaining() - 1
            }),
            old(self).remaining() > 0 && spec_entry(old(self).image(), old(self).offset()) is Some
                ==> (r is Some <==> valid_utf8(entry_name(old(self).image(), old(self).offset()))),
    {
        if self.remaining == 0 {
            return None;
        }
        let n = self.bytes.len();
        if self.offset > n || n - self.offset < 6 {
            return None;
        }
        let name_len = read_le16(self.bytes, self.offset) as usize;
        let data_len = read_le32(self.bytes, self.offset + 2) as usize;
        let name_start = self.offset + 6;
        let name_end = match name_start.checked_add(name_len) {
            None => return None,
            Some(e) => e,
        };
        let data_end = match name_end.checked_add(data_len) {
            None => return None,
            Some(e) => e,
        };
        if data_end > n {
            return None;
        }
        let name = match utf8_str(&self.bytes[name_start..name_end]) {
            None => return None,
            Some(name) => name,
        };
        let data = &self.bytes[name_end..data_end];
        self.offset = data_end;
        self.remaining = self.remaining - 1;
        Some(File { name, data })
    }
}

} // verus!
