//! User address-space layout and the checks a user mapping must pass
//! before any page table is touched.
use vstd::prelude::*;

verus! {

pub const PAGE_SIZE: u64 = 4096;
pub const PRESENT: u64 = 1;
pub const WRITABLE: u64 = 2;
pub const USER: u64 = 4;
pub const HUGE_OR_PAT: u64 = 128;
pub const NO_EXECUTE: u64 = 0x8000_0000_0000_0000;
pub const TABLE_ADDRESS_MASK: u64 = 0x000f_ffff_ffff_f000;
pub const USER_BASE: u64 = 0x0000_4000_0000_0000;
pub const USER_CODE: u64 = 0x0000_4000_0000_1000;
pub const USER_DATA: u64 = 0x0000_4000_0000_2000;
pub const USER_STACK_GUARD: u64 = 0x0000_4000_0000_b000;
pub const USER_STACK_BOTTOM: u64 = 0x0000_4000_0000_c000;
pub const USER_STACK_PAGES: usize = 4;
pub const USER_STACK_TOP: u64 = 0x0000_4000_0001_0000;
/// The top-level slot that holds every user mapping.
pub const USER_PML4_INDEX: usize = 128;

#[derive(Clone, Copy, Debug, PartialEq, Eq, Structural)]
pub struct AddressSpace {
    root: u64,
}

impl AddressSpace {
    pub closed spec fn spec_root(self) -> u64 {
        self.root
    }

    /// The address space whose top-level table is at `root`.
    pub fn from_root(root: u64) -> (s: Self)
        ensures
            s.spec_root() == root,
    {
        AddressSpace { root }
    }

    pub fn root(self) -> (r: u64)
        ensures
            r == self.spec_root(),
    {
        self.root
    }
}

#[derive(Clone, Copy, Debug, PartialEq, Eq, Structural)]
pub enum PagingError {
    OutOfMemory,
    MissingMapping,
    InvalidAddress,
    AddressInUse,
    ActiveAddressSpace,
}

#[derive(Clone, Copy, Debug, PartialEq, Eq, Structural)]
pub struct AddressSpaceSwitchBenchmark {
    pub samples: u32,
    pub min_pair_cycles: u64,
    pub average_pair_cycles: u64,
}

/// The nine-bit table index of `address` at the level that starts at bit
/// `shift`.
pub open spec fn spec_index(address: u64, shift: u64) -> int {
    ((address >> shift) % 512) as int
}

pub fn index(address: u64, shift: u64) -> (r: usize)
    requires
        shift < 64,
    ensures
        r == spec_index(address, shift),
{
    ((address >> shift) % 512) as usize
}

/// The flags of a user leaf mapping, or why it is refused: both addresses
/// page aligned, the frame nonzero and within the physical address width,
/// never writable and executable together, inside the user slot, and a
/// non-executable page only where the processor enforces no-execute.
pub open spec fn spec_user_page_flags(virtual_address: u64, physical_address: u64, writable: bool, executable: bool, nx_enabled: bool) -> Result<u64, PagingError> {
    if virtual_address % PAGE_SIZE != 0 || physical_address % PAGE_SIZE != 0 || physical_address == 0
        || physical_address > TABLE_ADDRESS_MASK || (writable && executable) || spec_index(virtual_address, 39)
        != USER_PML4_INDEX {
        Err(PagingError::InvalidAddress)
    } else if !executable && !nx_enabled {
        Err(PagingError::InvalidAddress)
    } else {
        Ok((PRESENT + USER + (if writable { WRITABLE } else { 0 }) + (if executable { 0 } else { NO_EXECUTE })) as u64)
    }
}

pub fn user_page_flags(virtual_address: u64, physical_address: u64, writable: bool, executable: bool, nx_enabled: bool) -> (r: Result<u64, PagingError>)
    ensures
        r == spec_user_page_flags(virtual_address, physical_address, writable, executable, nx_enabled),
{
    if virtual_address % PAGE_SIZE != 0 || physical_address % PAGE_SIZE != 0 || physical_address == 0
        || physical_address > TABLE_ADDRESS_MASK || (writable && executable) || index(virtual_address, 39)
        != USER_PML4_INDEX {
        return Err(PagingError::InvalidAddress);
    }
    let mut flags = PRESENT + USER;
    if writable {
        flags = flags + WRITABLE;
    }
    if !executable {
        if !nx_enabled {
            return Err(PagingError::InvalidAddress);
        }
        flags = flags + NO_EXECUTE;
    }
    Ok(flags)
}

/// A user page is never writable and executable at once.
pub proof fn lemma_write_xor_execute(virtual_address: u64, physical_address: u64, writable: bool, executable: bool, nx_enabled: bool)
    requires
        spec_user_page_flags(virtual_address, physical_address, writable, executable, nx_enabled) is Ok,
    ensures
        !(writable && executable),
        !executable ==> spec_user_page_flags(virtual_address, physical_address, writable, executable, nx_enabled)->Ok_0 >= NO_EXECUTE,
{
}

/// The flags of an accepted user mapping: always present and user, the
/// writable bit exactly when a writable page was asked for, the no-execute
/// bit exactly when a non-executable one was, and no other bit.
pub proof fn lemma_user_flags_bits(virtual_address: u64, physical_address: u64, writable: bool, executable: bool, nx_enabled: bool)
    requires
        spec_user_page_flags(virtual_address, physical_address, writable, executable, nx_enabled) is Ok,
    ensures
        ({
            let f = spec_user_page_flags(virtual_address, physical_address, writable, executable, nx_enabled)->Ok_0;
            &&& f & PRESENT != 0
            &&& f & USER != 0
            &&& (f & WRITABLE != 0) == writable
            &&& (f & NO_EXECUTE != 0) == !executable
            &&& f & !(PRESENT | WRITABLE | USER | NO_EXECUTE) == 0
        }),
{
    let f = spec_user_page_flags(virtual_address, physical_address, writable, executable, nx_enabled)->Ok_0;
    if writable {
        if executable {
        } else {
            assert(f == 0x8000_0000_0000_0007u64);
            assert(0x8000_0000_0000_0007u64 & 1 != 0 && 0x8000_0000_0000_0007u64 & 4 != 0 && 0x8000_0000_0000_0007u64 & 2 != 0
                && 0x8000_0000_0000_0007u64 & 0x8000_0000_0000_0000 != 0 && 0x8000_0000_0000_0007u64 & !(1u64 | 2u64 | 4u64 | 0x8000_0000_0000_0000u64) == 0) by (bit_vector);
        }
    } else {
        if executable {
            assert(f == 5u64);
            assert(5u64 & 1 != 0 && 5u64 & 4 != 0 && 5u64 & 2 == 0 && 5u64 & 0x8000_0000_0000_0000 == 0
                && 5u64 & !(1u64 | 2u64 | 4u64 | 0x8000_0000_0000_0000u64) == 0) by (bit_vector);
        } else {
            assert(f == 0x8000_0000_0000_0005u64);
            assert(0x8000_0000_0000_0005u64 & 1 != 0 && 0x8000_0000_0000_0005u64 & 4 != 0 && 0x8000_0000_0000_0005u64 & 2 == 0
                && 0x8000_0000_0000_0005u64 & 0x8000_0000_0000_0000 != 0 && 0x8000_0000_0000_0005u64 & !(1u64 | 2u64 | 4u64 | 0x8000_0000_0000_0000u64) == 0) by (bit_vector);
        }
    }
}

/// A well-formed request is accepted: page-aligned addresses, a physical
/// page that is not the null page and fits an entry, a virtual address in
/// the user slot of the top-level table, not both writable and executable,
/// and no-execute available for a page that must not run.
pub proof fn lemma_user_flags_accepted(virtual_address: u64, physical_address: u64, writable: bool, executable: bool, nx_enabled: bool)
    requires
        virtual_address % 4096 == 0,
        physical_address % 4096 == 0,
        0 < physical_address <= TABLE_ADDRESS_MASK,
        !(writable && executable),
        spec_index(virtual_address, 39) == USER_PML4_INDEX,
        executable || nx_enabled,
    ensures
        spec_user_page_flags(virtual_address, physical_address, writable, executable, nx_enabled) is Ok,
{
}

} // verus!
