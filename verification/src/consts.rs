use vstd::prelude::*;

verus! {

/// Number of registers of the VM.
pub const VM_REGISTER_COUNT: usize = 64;

/// Size of a machine word in bytes.
pub const WORD_SIZE: usize = 8;

/// Size of an encoded instruction in bytes.
pub const INSTRUCTION_SIZE: u64 = 4;

/// Size of the VM memory, in bytes, as a word.
pub const VM_MAX_RAM: u64 = 67108864;

/// Size of the VM memory, in bytes.
pub const MEM_SIZE: usize = 67108864;

/// Largest memory range that a single access may touch.
pub const MEM_MAX_ACCESS_SIZE: u64 = 67108864;

/// Register holding the constant zero.
pub const REG_ZERO: usize = 0;
/// Register holding the constant one.
pub const REG_ONE: usize = 1;
/// Overflow register.
pub const REG_OF: usize = 2;
/// Program counter.
pub const REG_PC: usize = 3;
/// Stack start pointer.
pub const REG_SSP: usize = 4;
/// Stack pointer.
pub const REG_SP: usize = 5;
/// Frame pointer.
pub const REG_FP: usize = 6;
/// Heap pointer.
pub const REG_HP: usize = 7;
/// Error register.
pub const REG_ERR: usize = 8;
/// Global gas remaining.
pub const REG_GGAS: usize = 9;
/// Gas remaining in the current context.
pub const REG_CGAS: usize = 10;
/// Balance of the forwarded asset.
pub const REG_BAL: usize = 11;
/// Pointer to the start of the currently executing code.
pub const REG_IS: usize = 12;
/// Return value or pointer.
pub const REG_RET: usize = 13;
/// Return value length in bytes.
pub const REG_RETL: usize = 14;
/// Flags register.
pub const REG_FLAG: usize = 15;
/// First register that programs may write.
pub const REG_WRITABLE: usize = 16;

/// Number of registers in each of the two program register segments.
pub const SEGMENT_REGISTER_COUNT: usize = 24;

} // verus!
