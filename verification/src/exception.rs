//! Pure x86-64 entry contracts shared by assembly, dispatch, and tests.
use vstd::prelude::*;

verus! {

/// Architectural exceptions that push an error word: vectors 8, 10-14, 17,
/// 21, 29 and 30.
pub const ERROR_CODE_MASK: u32 = 0x6022_7d00;

/// Stack order after the common entry saves general registers.
#[derive(Clone, Copy, Debug, Default, PartialEq, Eq)]
pub struct ExceptionFrame {
    /// r15, r14, r13, r12, r11, r10, r9, r8, rdi, rsi, rbp, rbx, rdx, rcx, rax.
    pub registers: [u64; 15],
    pub vector: u64,
    pub error: u64,
    pub rip: u64,
    pub cs: u64,
    pub rflags: u64,
    pub rsp: u64,
    pub ss: u64,
}

/// The vectors for which the CPU pushes an error word.
pub open spec fn pushes_error_code(vector: u64) -> bool {
    vector == 8 || (10 <= vector <= 14) || vector == 17 || vector == 21 || vector == 29 || vector
        == 30
}

pub fn has_error_code(vector: u64) -> (r: bool)
    ensures
        r == pushes_error_code(vector),
{
    if vector >= 32 {
        return false;
    }
    let v = vector as u32;
    let r = ERROR_CODE_MASK & (1u32 << v) != 0;
    assert(r == (v == 8 || (10 <= v <= 14) || v == 17 || v == 21 || v == 29 || v == 30))
        by (bit_vector)
        requires
            v < 32,
            r == (0x6022_7d00u32 & (1u32 << v) != 0),
    ;
    r
}

/// Exceptions raised from ring 3 that a process may be killed for, rather
/// than stopping the machine.
pub open spec fn spec_process_local(vector: u64, cs: u64) -> bool {
    cs & 3 == 3 && (vector <= 1 || (3 <= vector <= 7) || (10 <= vector <= 14) || vector == 16
        || vector == 17 || vector == 19 || vector == 21)
}

/// Machine-level events, reserved vectors and unknown privilege levels are
/// never downgraded to a successful process-local recovery.
pub fn process_local(vector: u64, cs: u64) -> (r: bool)
    ensures
        r == spec_process_local(vector, cs),
{
    cs & 3 == 3 && match vector {
        0 | 1 | 3 | 4 | 5 | 6 | 7 | 10 | 11 | 12 | 13 | 14 | 16 | 17 | 19 | 21 => true,
        _ => false,
    }
}

/// Interrupt-stack-table slot for each vector: double fault, NMI, machine
/// check and debug get dedicated stacks; everything else uses slot 1.
pub fn ist_index(vector: usize) -> (r: u16)
    ensures
        r == (if vector == 8 {
            2u16
        } else if vector == 2 {
            3u16
        } else if vector == 18 {
            4u16
        } else if vector == 1 {
            5u16
        } else {
            1u16
        }),
{
    match vector {
        8 => 2,
        2 => 3,
        18 => 4,
        1 => 5,
        _ => 1,
    }
}

/// End-of-interrupt policy: (acknowledge master, acknowledge slave).
/// A spurious IRQ7 gets no EOI; a spurious IRQ15 acknowledges only the cascade.
pub fn pic_eoi_policy(irq: u8, in_service: bool) -> (r: (bool, bool))
    ensures
        r == (if irq == 7 && !in_service {
            (false, false)
        } else if irq == 15 && !in_service {
            (true, false)
        } else if irq <= 7 {
            (true, false)
        } else if irq <= 15 {
            (true, true)
        } else {
            (false, false)
        }),
{
    if irq == 7 && !in_service {
        (false, false)
    } else if irq == 15 && !in_service {
        (true, false)
    } else if irq <= 7 {
        (true, false)
    } else if irq <= 15 {
        (true, true)
    } else {
        (false, false)
    }
}

} // verus!
