//! The saved machine state of one logical thread.
//!
//! A `Registers` value records the callee-saved register set of the AArch64
//! procedure-call convention, the link register (the address execution resumes
//! at) and the stack pointer. It is a plain record: the scheduler only creates
//! and stores these values, and the host's low-level switch primitive is the
//! sole reader and writer of the register contents during an actual switch.

use vstd::prelude::*;

verus! {

/// Callee-saved machine state for one context: the AArch64 callee-saved
/// general registers `x19`-`x28`, the callee-saved SIMD registers `d8`-`d15`,
/// the link register `x30` (resume address) and the stack pointer `sp`.
#[derive(Clone, Copy, PartialEq, Eq, Structural, Debug)]
pub struct Registers {
    pub d8: u64,
    pub d9: u64,
    pub d10: u64,
    pub d11: u64,
    pub d12: u64,
    pub d13: u64,
    pub d14: u64,
    pub d15: u64,
    pub x19: u64,
    pub x20: u64,
    pub x21: u64,
    pub x22: u64,
    pub x23: u64,
    pub x24: u64,
    pub x25: u64,
    pub x26: u64,
    pub x27: u64,
    pub x28: u64,
    /// Link register: the address execution continues at when this state is
    /// resumed. Preset to the entry trampoline for a freshly spawned context.
    pub x30: u64,
    /// Stack pointer: top of the context's stack region.
    pub sp: u64,
}

/// A register record with every data register cleared, the resume address
/// not yet set, and the stack pointer at `sp`.
pub open spec fn blank_regs(sp: u64) -> Registers {
    Registers {
        d8: 0u64, d9: 0u64, d10: 0u64, d11: 0u64,
        d12: 0u64, d13: 0u64, d14: 0u64, d15: 0u64,
        x19: 0u64, x20: 0u64, x21: 0u64, x22: 0u64, x23: 0u64,
        x24: 0u64, x25: 0u64, x26: 0u64, x27: 0u64, x28: 0u64,
        x30: 0u64,
        sp: sp,
    }
}

impl Registers {
    /// All data registers cleared, the resume address not yet set, and the
    /// stack pointer at `sp`.
    pub fn new(sp: u64) -> (r: Registers)
        ensures
            r == blank_regs(sp),
    {
        Registers {
            d8: 0, d9: 0, d10: 0, d11: 0, d12: 0, d13: 0, d14: 0, d15: 0,
            x19: 0, x20: 0, x21: 0, x22: 0, x23: 0, x24: 0, x25: 0, x26: 0,
            x27: 0, x28: 0,
            x30: 0,
            sp,
        }
    }
}

} // verus!
