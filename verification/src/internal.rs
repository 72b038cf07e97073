use crate::consts::INSTRUCTION_SIZE;
use crate::error::{PanicOrBug, PanicReason, SimpleResult};
use vstd::prelude::*;

verus! {

/// The flags with the given bits, if every set bit is a known flag.
#[verifier::external_body]
fn flags_from_bits(a: u64) -> (r: Option<u64>)
    ensures
        r == if a & 3u64 == a { Some(a) } else { None::<u64> },
{
    fuel_asm::Flags::from_bits(a).map(|f| f.bits())
}

/// Advances the program counter by one instruction, failing with `MemoryOverflow`
/// if it would overflow.
pub fn inc_pc(pc: &mut u64) -> (r: Result<(), PanicReason>)
    ensures
        match r {
            Ok(()) => old(pc) + INSTRUCTION_SIZE <= u64::MAX && *final(pc) == old(pc) + INSTRUCTION_SIZE,
            Err(e) => old(pc) + INSTRUCTION_SIZE > u64::MAX && e == PanicReason::MemoryOverflow
                && *final(pc) == *old(pc),
        },
{
    match pc.checked_add(INSTRUCTION_SIZE) {
        Some(i) => {
            *pc = i;
            Ok(())
        },
        None => Err(PanicReason::MemoryOverflow),
    }
}

/// The program counter after advancing it, as an instruction result.
pub open spec fn pc_advanced(pc: u64) -> Result<u64, PanicReason> {
    if pc + INSTRUCTION_SIZE <= u64::MAX {
        Ok((pc + INSTRUCTION_SIZE) as u64)
    } else {
        Err(PanicReason::MemoryOverflow)
    }
}

/// Advances the program counter, as an instruction result.
pub fn inc_pc_result(pc: &mut u64) -> (r: SimpleResult<()>)
    ensures
        match pc_advanced(*old(pc)) {
            Ok(p) => r == Ok::<(), PanicOrBug>(()) && *final(pc) == p,
            Err(e) => r == Err::<(), PanicOrBug>(PanicOrBug::Panic(e)) && *final(pc) == *old(pc),
        },
{
    match inc_pc(pc) {
        Ok(()) => Ok(()),
        Err(e) => Err(PanicOrBug::Panic(e)),
    }
}

/// Clears the error register.
pub fn clear_err(err: &mut u64)
    ensures
        *final(err) == 0,
{
    *err = 0;
}

/// Sets the error register.
pub fn set_err(err: &mut u64)
    ensures
        *final(err) == 1,
{
    *err = 1;
}

/// Sets the flags register to `a` and advances the program counter, failing with
/// `InvalidFlags` if `a` has a bit that is not a known flag.
pub fn set_flag(flag: &mut u64, pc: &mut u64, a: u64) -> (r: SimpleResult<()>)
    ensures
        if a & 3u64 != a {
            r == Err::<(), PanicOrBug>(PanicOrBug::Panic(PanicReason::InvalidFlags))
                && *final(flag) == *old(flag) && *final(pc) == *old(pc)
        } else {
            *final(flag) == a && match pc_advanced(*old(pc)) {
                Ok(p) => r == Ok::<(), PanicOrBug>(()) && *final(pc) == p,
                Err(e) => r == Err::<(), PanicOrBug>(PanicOrBug::Panic(e)) && *final(pc) == *old(pc),
            }
        },
{
    let flags = match flags_from_bits(a) {
        Some(f) => f,
        None => return Err(PanicOrBug::Panic(PanicReason::InvalidFlags)),
    };
    *flag = flags;
    inc_pc_result(pc)
}

} // verus!
