//! CPU page-protection policy, separate from privileged register access.
use vstd::prelude::*;

verus! {

pub const EFER_NXE: u64 = 0x800;
pub const CR0_WP: u64 = 0x1_0000;
pub const CR4_SMEP: u64 = 0x10_0000;
pub const CR4_SMAP: u64 = 0x20_0000;
pub const RFLAGS_AC: u64 = 0x4_0000;

#[derive(Clone, Copy, Debug, PartialEq, Eq, Structural)]
pub struct Features {
    pub nx: bool,
    pub smep: bool,
    pub smap: bool,
}

/// The CR4 bits that the optional features require.
pub open spec fn spec_cr4_bits(f: Features) -> u64 {
    (if f.smep { CR4_SMEP } else { 0 }) | (if f.smap { CR4_SMAP } else { 0 })
}

impl Features {
    /// NX is CPUID 0x8000_0001 EDX bit 20; SMEP and SMAP are leaf 7 EBX bits 7 and 20.
    pub fn from_cpuid(extended_edx: u32, structured_ebx: u32) -> (r: Self)
        ensures
            r.nx == (extended_edx & 0x10_0000 != 0),
            r.smep == (structured_ebx & 0x80 != 0),
            r.smap == (structured_ebx & 0x10_0000 != 0),
    {
        Self {
            nx: extended_edx & 0x10_0000 != 0,
            smep: structured_ebx & 0x80 != 0,
            smap: structured_ebx & 0x10_0000 != 0,
        }
    }

    pub fn cr4_bits(self) -> (r: u64)
        ensures
            r == spec_cr4_bits(self),
    {
        (if self.smep { CR4_SMEP } else { 0 }) | (if self.smap { CR4_SMAP } else { 0 })
    }

    /// NX must be present and enabled, WP set, and every optional feature the
    /// CPU offers switched on in CR4.
    pub fn verified(self, efer: u64, cr0: u64, cr4: u64) -> (r: bool)
        ensures
            r == (self.nx && efer & EFER_NXE != 0 && cr0 & CR0_WP != 0 && cr4 & spec_cr4_bits(
                self,
            ) == spec_cr4_bits(self)),
    {
        let bits = self.cr4_bits();
        self.nx && efer & EFER_NXE != 0 && cr0 & CR0_WP != 0 && cr4 & bits == bits
    }
}

/// Clears the alignment-check flag and nothing else.
pub fn clear_alignment_check(rflags: u64) -> (r: u64)
    ensures
        r == rflags & !RFLAGS_AC,
{
    rflags & !RFLAGS_AC
}

} // verus!
